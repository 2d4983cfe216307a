//! Paper execution: local balances and simple touch / last-trade fill rules.

use super::{apply_slippage, spec_slippage, ten_thousand};
use crate::decimal::{
    abs_int, checked_add, checked_div, checked_mul, checked_sub, decimal_difference,
    decimal_product, decimal_quotient, decimal_sum, exact_difference, exact_sum, le, max_scale,
    value_is, value_le, Dec, MAX_MANTISSA, MAX_SCALE, decimal_ops_exact, exact_product,
};
use crate::engine::{account_events_applied, events_applied_through, GatewayRequest};
use crate::error::Error;
use crate::events::{AccountEvent, OrderIntent};
use crate::keyed::{entries_map, Duplicate};
use crate::state::{overflow_message, zero, GlobalState, InstrumentMeta};
use crate::types::{OpenOrder, OrderId, OrderStatus, OrderType, Side};
use vstd::prelude::*;

verus! {

/// Paper trading gateway configuration.
#[derive(Clone, Copy, Debug)]
pub struct PaperConfig {
    /// Taker fee in basis points.
    pub fee_bps: Dec,
    /// Market order slippage in bps applied to mid/last.
    pub market_slippage_bps: Dec,
}

impl Default for PaperConfig {
    fn default() -> (r: Self)
        ensures
            r.fee_bps == Dec::of(10, 0),
            r.market_slippage_bps == Dec::of(5, 0),
    {
        PaperConfig { fee_bps: Dec::from_u64(10), market_slippage_bps: Dec::from_u64(5) }
    }
}

/// Paper gateway: fills against the local book with fees and slippage.
#[derive(Clone, Copy, Debug)]
pub struct PaperGateway {
    cfg: PaperConfig,
}

/// Fee on a notional: `notional * bps / 10000`; `None` on overflow.
pub open spec fn spec_fee(notional: Dec, bps: Dec) -> Option<Dec> {
    match decimal_product(notional, bps) {
        Some(x) => decimal_quotient(x, ten_thousand()),
        None => None,
    }
}

/// The order update event that reports `o`.
pub open spec fn update_event(o: OpenOrder) -> AccountEvent {
    AccountEvent::OrderUpdate {
        id: o.id,
        instrument: o.instrument,
        side: o.side,
        order_type: o.order_type,
        price: o.price,
        remaining_qty: o.remaining_qty,
        original_qty: o.original_qty,
        status: o.status,
    }
}

/// `o` with nothing left and the given final status.
pub open spec fn closed_as(o: OpenOrder, status: OrderStatus) -> OpenOrder {
    OpenOrder { remaining_qty: zero(), status, ..o }
}

/// Balances after a fill of `qty` at `price` with `fee`: a buy adds `qty` base and pays
/// `price * qty + fee` quote; a sell removes `qty` base and receives `price * qty - fee`.
/// Both are computed from the balances in `state`.
pub open spec fn spec_balance_updates(
    state: &GlobalState,
    side: Side,
    meta: InstrumentMeta,
    price: Dec,
    qty: Dec,
    fee: Dec,
) -> Option<Seq<AccountEvent>> {
    let base_free = state.balance_or_zero(meta.base@);
    let quote_free = state.balance_or_zero(meta.quote@);
    match decimal_product(price, qty) {
        None => None,
        Some(notional) => match side {
            Side::Buy => match decimal_sum(notional, fee) {
                None => None,
                Some(cost) => match (decimal_sum(base_free, qty), decimal_difference(quote_free, cost)) {
                    (Some(b), Some(q)) => Some(
                        seq![
                            AccountEvent::Balance { asset: meta.base, free: b },
                            AccountEvent::Balance { asset: meta.quote, free: q },
                        ],
                    ),
                    _ => None,
                },
            },
            Side::Sell => match decimal_difference(notional, fee) {
                None => None,
                Some(proceeds) => match (decimal_difference(base_free, qty), decimal_sum(quote_free, proceeds)) {
                    (Some(b), Some(q)) => Some(
                        seq![
                            AccountEvent::Balance { asset: meta.base, free: b },
                            AccountEvent::Balance { asset: meta.quote, free: q },
                        ],
                    ),
                    _ => None,
                },
            },
        },
    }
}

/// A fill moves the balances the right way: the base balance gains `qty` on a buy and loses
/// it on a sell; on a buy the quote balance pays the notional `price * qty` plus the fee, on a
/// sell it receives the notional minus the fee. Each step is exact where its result fits (as
/// `rust_decimal` then computes exactly), the notional being the exact product.
pub proof fn law_fill_moves_balances(
    state: &GlobalState,
    side: Side,
    meta: InstrumentMeta,
    price: Dec,
    qty: Dec,
    fee: Dec,
)
    requires
        decimal_ops_exact(),
        price.sc() + qty.sc() <= MAX_SCALE,
        abs_int(price.mant() * qty.mant()) <= MAX_MANTISSA,
    ensures
        spec_balance_updates(state, side, meta, price, qty, fee) matches Some(evs) ==> ({
            let base_free = state.balance_or_zero(meta.base@);
            let quote_free = state.balance_or_zero(meta.quote@);
            let notional = exact_product(price, qty);
            &&& evs.len() == 2
            &&& evs[0] matches AccountEvent::Balance { asset, free: b } && asset == meta.base
                && moves_by(b, base_free, side, qty)
            &&& evs[1] matches AccountEvent::Balance { asset, free: q } && asset == meta.quote
                && match side {
                Side::Buy => {
                    let cost = decimal_sum(notional, fee)->0;
                    &&& abs_int(exact_sum(notional, fee)) <= MAX_MANTISSA ==> value_is(
                        cost,
                        exact_sum(notional, fee),
                        max_scale(notional, fee),
                    )
                    &&& abs_int(exact_difference(quote_free, cost)) <= MAX_MANTISSA ==> value_is(
                        q,
                        exact_difference(quote_free, cost),
                        max_scale(quote_free, cost),
                    )
                },
                Side::Sell => {
                    let proceeds = decimal_difference(notional, fee)->0;
                    &&& abs_int(exact_difference(notional, fee)) <= MAX_MANTISSA ==> value_is(
                        proceeds,
                        exact_difference(notional, fee),
                        max_scale(notional, fee),
                    )
                    &&& abs_int(exact_sum(quote_free, proceeds)) <= MAX_MANTISSA ==> value_is(
                        q,
                        exact_sum(quote_free, proceeds),
                        max_scale(quote_free, proceeds),
                    )
                },
            }
        }),
{
    assert(decimal_product(price, qty) == Some(exact_product(price, qty)));
}

/// `new` is `old` plus `qty` for a buy and minus `qty` for a sell, exactly, whenever that
/// result is in range.
pub open spec fn moves_by(new: Dec, old: Dec, side: Side, qty: Dec) -> bool {
    match side {
        Side::Buy => abs_int(exact_sum(old, qty)) <= MAX_MANTISSA ==> value_is(
            new,
            exact_sum(old, qty),
            max_scale(old, qty),
        ),
        Side::Sell => abs_int(exact_difference(old, qty)) <= MAX_MANTISSA ==> value_is(
            new,
            exact_difference(old, qty),
            max_scale(old, qty),
        ),
    }
}

/// Events of a fill of `filled` (already marked filled) for `qty` at `px`: the order update,
/// the fill with its fee in the quote asset, then the two balance updates.
pub open spec fn spec_fill_events(
    fee_bps: Dec,
    state: &GlobalState,
    filled: OpenOrder,
    meta: InstrumentMeta,
    px: Dec,
    qty: Dec,
) -> Option<Seq<AccountEvent>> {
    match decimal_product(px, qty) {
        None => None,
        Some(notional) => match spec_fee(notional, fee_bps) {
            None => None,
            Some(fee) => match spec_balance_updates(state, filled.side, meta, px, qty, fee) {
                None => None,
                Some(bal) => Some(
                    seq![
                        update_event(filled),
                        AccountEvent::Fill {
                            order_id: filled.id,
                            instrument: filled.instrument,
                            side: filled.side,
                            price: px,
                            qty,
                            fee,
                            fee_asset: meta.quote,
                        },
                    ] + bal,
                ),
            },
        },
    }
}

/// The price a limit order crosses the touch at: the ask for a buy at or above it, the bid
/// for a sell at or below it.
pub open spec fn spec_crossing(side: Side, limit: Dec, bid: Dec, ask: Dec) -> Option<Dec> {
    match side {
        Side::Buy => if value_le(ask, limit) {
            Some(ask)
        } else {
            None
        },
        Side::Sell => if value_le(limit, bid) {
            Some(bid)
        } else {
            None
        },
    }
}

/// The price a resting limit order fills at against the last trade: a buy when the last
/// trade is at or below its limit, a sell when at or above.
pub open spec fn spec_touch(side: Side, limit: Dec, last: Dec) -> Option<Dec> {
    match side {
        Side::Buy => if value_le(last, limit) {
            Some(last)
        } else {
            None
        },
        Side::Sell => if value_le(limit, last) {
            Some(last)
        } else {
            None
        },
    }
}

/// A limit order crosses the touch when it reaches the other side of the book: a buy whose
/// limit is at or above the ask fills at the ask, a sell whose limit is at or below the bid
/// fills at the bid; otherwise it does not cross.
pub proof fn law_crossing_meets_the_opposite_side(limit: Dec, bid: Dec, ask: Dec)
    ensures
        spec_crossing(Side::Buy, limit, bid, ask) is Some <==> value_le(ask, limit),
        spec_crossing(Side::Buy, limit, bid, ask) matches Some(px) ==> px == ask,
        spec_crossing(Side::Sell, limit, bid, ask) is Some <==> value_le(limit, bid),
        spec_crossing(Side::Sell, limit, bid, ask) matches Some(px) ==> px == bid,
{
}

/// A resting limit order fills at the last trade price when the trade reaches its limit: a
/// buy when the trade is at or below the limit, a sell when at or above.
pub proof fn law_touch_fills_at_last_trade(limit: Dec, last: Dec)
    ensures
        spec_touch(Side::Buy, limit, last) is Some <==> value_le(last, limit),
        spec_touch(Side::Sell, limit, last) is Some <==> value_le(limit, last),
        spec_touch(Side::Buy, limit, last) matches Some(px) ==> px == last,
        spec_touch(Side::Sell, limit, last) matches Some(px) ==> px == last,
{
}

/// The fee is the notional times the fee rate in basis points, over 10000: exactly so where
/// the product fits and its mantissa is divisible by 10000.
pub proof fn law_fee_is_basis_points_of_notional(notional: Dec, bps: Dec)
    requires
        decimal_ops_exact(),
        notional.sc() + bps.sc() <= MAX_SCALE,
        abs_int(notional.mant() * bps.mant()) <= MAX_MANTISSA,
    ensures
        spec_fee(notional, bps) matches Some(f) && (exact_product(notional, bps).mant() % 10000
            == 0 ==> value_is(
            f,
            exact_product(notional, bps).mant() / 10000,
            exact_product(notional, bps).sc(),
        )),
{
    Dec::lemma_of(10000, 0);
    assert(decimal_product(notional, bps) == Some(exact_product(notional, bps)));
    assert(decimal_quotient(exact_product(notional, bps), ten_thousand()) is Some);
}

/// An open order for `intent` with id `id`.
pub open spec fn spec_open_order(
    id: OrderId,
    intent: &OrderIntent,
    price: Option<Dec>,
    ot: OrderType,
) -> OpenOrder {
    OpenOrder {
        id,
        instrument: intent.instrument,
        side: intent.side,
        order_type: ot,
        price,
        remaining_qty: intent.qty,
        original_qty: intent.qty,
        status: OrderStatus::Open,
    }
}

/// Result of a paper operation: events, or the message of an `Error::Invalid`.
pub type PaperOutcome = Result<Seq<AccountEvent>, Seq<char>>;

/// The result of a gateway call agrees with an outcome.
pub open spec fn paper_matches(o: PaperOutcome, r: Result<Vec<AccountEvent>, Error>) -> bool {
    match o {
        Ok(evs) => r matches Ok(v) && v@ == evs,
        Err(m) => r matches Err(Error::Invalid(s)) && s@ == m,
    }
}

/// Events, or the overflow message when `None`.
pub open spec fn or_overflow(e: Option<Seq<AccountEvent>>) -> PaperOutcome {
    match e {
        Some(evs) => Ok(evs),
        None => Err("decimal overflow"@),
    }
}

/// Each open order is stored under its own id.
pub open spec fn orders_under_own_ids(state: &GlobalState) -> bool {
    forall|i: int|
        0 <= i < state.open_orders.entries().len() ==> (#[trigger] state.open_orders.entries()[i]).1.id@
            == state.open_orders.entries()[i].0
}

/// The cancel-all events of `state`: each open order, in storage order, reported canceled.
pub open spec fn cancel_all_events(state: &GlobalState) -> Seq<AccountEvent> {
    state.open_orders.entries().map_values(
        |e: (u128, OpenOrder)| update_event(closed_as(e.1, OrderStatus::Canceled)),
    )
}

/// After the first `j` cancel-all events, the open orders left are those not among the
/// first `j` entries.
proof fn lemma_cancel_prefix(
    state: GlobalState,
    after: GlobalState,
    r: Result<(), Error>,
    sts: Seq<GlobalState>,
    k: int,
    j: int,
)
    requires
        state.wf(),
        orders_under_own_ids(&state),
        events_applied_through(state, after, cancel_all_events(&state), r, sts, k),
        0 <= j <= k,
    ensures
        forall|key: u128|
            #![trigger sts[j].open_orders.as_map().dom().contains(key)]
            sts[j].open_orders.as_map().dom().contains(key) <==> (entries_map(
                state.open_orders.entries(),
            ).dom().contains(key) && forall|i: int|
                0 <= i < j ==> (#[trigger] state.open_orders.entries()[i]).0 != key),
    decreases j,
{
    let es = state.open_orders.entries();
    let evs = cancel_all_events(&state);
    if j > 0 {
        lemma_cancel_prefix(state, after, r, sts, k, j - 1);
        assert(sts[0] == state);
        let e = es[j - 1];
        assert(evs[j - 1] == update_event(closed_as(e.1, OrderStatus::Canceled)));
        assert(crate::state::account_step(sts[j - 1], sts[j], evs[j - 1], Ok(())));
        assert(sts[j].open_orders.as_map() == sts[j - 1].open_orders.as_map().remove(e.0));
        assert forall|key: u128|
            #![trigger sts[j].open_orders.as_map().dom().contains(key)]
            sts[j].open_orders.as_map().dom().contains(key) <==> (entries_map(es).dom().contains(
                key,
            ) && forall|i: int| 0 <= i < j ==> (#[trigger] es[i]).0 != key) by {
            if sts[j - 1].open_orders.as_map().dom().contains(key) && key != e.0 {
                assert forall|i: int| 0 <= i < j implies (#[trigger] es[i]).0 != key by {
                    if i < j - 1 {
                    }
                }
            }
        }
    } else {
        assert(sts[0] == state);
    }
}

/// Applying all the events of a paper cancel-all, in order, succeeds and leaves no open
/// order (where each open order is stored under its own id).
pub proof fn law_cancel_all_clears_open_orders(
    paper: &PaperGateway,
    state: GlobalState,
    reply: Vec<AccountEvent>,
    after: GlobalState,
    r: Result<(), Error>,
)
    requires
        state.wf(),
        orders_under_own_ids(&state),
        paper.answers_request(&state, GatewayRequest::CancelAll, Ok(reply)),
        account_events_applied(state, after, reply@, r),
    ensures
        r is Ok,
        after.open_orders.as_map() == Map::<u128, OpenOrder>::empty(),
{
    let es = state.open_orders.entries();
    let evs = cancel_all_events(&state);
    assert(reply@ == evs);
    let (sts, k) = choose|sts: Seq<GlobalState>, k: int|
        events_applied_through(state, after, evs, r, sts, k);
    assert(events_applied_through(state, after, evs, r, sts, k));
    if k < evs.len() {
        assert(evs[k] == update_event(closed_as(es[k].1, OrderStatus::Canceled)));
        assert(false);
    }
    lemma_cancel_prefix(state, after, r, sts, k, k);
    assert forall|key: u128| !after.open_orders.as_map().dom().contains(key) by {
        if after.open_orders.as_map().dom().contains(key) {
            assert(sts[k].open_orders.as_map().dom().contains(key));
            let i = choose|i: int| 0 <= i < es.len() && es[i].0 == key;
            assert(es[i].0 != key);
        }
    }
    assert(after.open_orders.as_map() =~= Map::<u128, OpenOrder>::empty());
}

impl PaperGateway {
    /// The configuration.
    pub closed spec fn config(&self) -> PaperConfig {
        self.cfg
    }

    /// A paper gateway is determined by its configuration.
    pub proof fn lemma_config_determines(&self, other: &PaperGateway)
        requires
            self.config() == other.config(),
        ensures
            *self == *other,
    {
    }

    /// New paper gateway.
    pub fn new(cfg: PaperConfig) -> (r: Self)
        ensures
            r.config() == cfg,
    {
        PaperGateway { cfg }
    }

    /// What [`PaperGateway::place_limit_with_id`] does.
    pub open spec fn spec_place_limit(
        &self,
        state: &GlobalState,
        intent: &OrderIntent,
        id: OrderId,
    ) -> PaperOutcome {
        if intent.order_type != OrderType::Limit {
            Err("place_limit requires limit intent"@)
        } else if intent.price is None {
            Err("limit needs price"@)
        } else if !state.instruments.as_map().dom().contains(intent.instrument@) {
            Err("unknown instrument"@)
        } else {
            let price = intent.price->0;
            let meta = state.instruments.as_map()[intent.instrument@];
            let o = spec_open_order(id, intent, Some(price), OrderType::Limit);
            if state.l1.as_map().dom().contains(intent.instrument@) {
                let (_, bid, ask) = state.l1.as_map()[intent.instrument@];
                match spec_crossing(intent.side, price, bid, ask) {
                    Some(px) => or_overflow(
                        spec_fill_events(
                            self.config().fee_bps,
                            state,
                            closed_as(o, OrderStatus::Filled),
                            meta,
                            px,
                            intent.qty,
                        ),
                    ),
                    None => Ok(seq![update_event(o)]),
                }
            } else {
                Ok(seq![update_event(o)])
            }
        }
    }

    /// What [`PaperGateway::place_market_with_id`] does.
    pub open spec fn spec_place_market(
        &self,
        state: &GlobalState,
        intent: &OrderIntent,
        id: OrderId,
    ) -> PaperOutcome {
        if !state.instruments.as_map().dom().contains(intent.instrument@) {
            Err("unknown instrument"@)
        } else {
            let meta = state.instruments.as_map()[intent.instrument@];
            match state.mid_or_last_result(intent.instrument@) {
                Err(_) => Err("decimal overflow"@),
                Ok(None) => Err("no mid/last for market order"@),
                Ok(Some(mid)) => match spec_slippage(
                    intent.side,
                    mid,
                    self.config().market_slippage_bps,
                ) {
                    None => Err("decimal overflow"@),
                    Some(px) => or_overflow(
                        spec_fill_events(
                            self.config().fee_bps,
                            state,
                            closed_as(
                                spec_open_order(id, intent, None, OrderType::Market),
                                OrderStatus::Filled,
                            ),
                            meta,
                            px,
                            intent.qty,
                        ),
                    ),
                },
            }
        }
    }

    /// The reply to an engine request agrees with the paper rules (an order is placed under
    /// some fresh id).
    pub open spec fn answers_request(
        &self,
        state: &GlobalState,
        request: GatewayRequest,
        r: Result<Vec<AccountEvent>, Error>,
    ) -> bool {
        match request {
            GatewayRequest::PollAfterMarket => paper_matches(
                or_overflow(self.spec_poll(state, state.open_orders.entries().len())),
                r,
            ),
            GatewayRequest::CancelAll => r matches Ok(v) && v@ == state.open_orders.entries().map_values(
                |e: (u128, OpenOrder)| update_event(closed_as(e.1, OrderStatus::Canceled)),
            ),
            GatewayRequest::PlaceLimit(intent) => exists|id: OrderId|
                paper_matches(self.spec_place_limit(state, &intent, id), r),
            GatewayRequest::PlaceMarket(intent) => exists|id: OrderId|
                paper_matches(self.spec_place_market(state, &intent, id), r),
        }
    }

    /// Events of the first `n` open orders (in storage order) that the last trade fills.
    pub open spec fn spec_poll(&self, state: &GlobalState, n: nat) -> Option<Seq<AccountEvent>>
        decreases n,
    {
        if n == 0 {
            Some(Seq::empty())
        } else {
            match self.spec_poll(state, (n - 1) as nat) {
                None => None,
                Some(prev) => {
                    let o = state.open_orders.entries()[n - 1].1;
                    if o.order_type == OrderType::Limit && o.price is Some
                        && state.last_trade.as_map().dom().contains(o.instrument@)
                        && state.instruments.as_map().dom().contains(o.instrument@) {
                        let last = state.last_trade.as_map()[o.instrument@].1;
                        match spec_touch(o.side, o.price->0, last) {
                            None => Some(prev),
                            Some(px) => match spec_fill_events(
                                self.config().fee_bps,
                                state,
                                closed_as(o, OrderStatus::Filled),
                                state.instruments.as_map()[o.instrument@],
                                px,
                                o.remaining_qty,
                            ) {
                                None => None,
                                Some(evs) => Some(prev + evs),
                            },
                        }
                    } else {
                        Some(prev)
                    }
                },
            }
        }
    }

    fn meta<'a>(state: &'a GlobalState, inst: &crate::types::InstrumentId) -> (r: Result<
        &'a InstrumentMeta,
        Error,
    >)
        requires
            state.wf(),
        ensures
            match r {
                Ok(m) => state.instruments.as_map().dom().contains(inst@) && *m
                    == state.instruments.as_map()[inst@],
                Err(e) => !state.instruments.as_map().dom().contains(inst@) && (e matches Error::Invalid(
                    s,
                ) && s@ == "unknown instrument"@),
            },
    {
        match state.instruments.get(inst) {
            Some(m) => Ok(m),
            None => Err(Error::Invalid("unknown instrument".to_owned())),
        }
    }

    fn fee_notional(notional: Dec, bps: Dec) -> (r: Option<Dec>)
        ensures
            r == spec_fee(notional, bps),
    {
        match checked_mul(notional, bps) {
            Some(x) => checked_div(x, Dec::from_u64(10000)),
            None => None,
        }
    }

    fn build_open(
        id: OrderId,
        intent: &OrderIntent,
        qty: Dec,
        price: Option<Dec>,
        ot: OrderType,
    ) -> (r: OpenOrder)
        ensures
            r == (OpenOrder { remaining_qty: qty, original_qty: qty, ..spec_open_order(id, intent, price, ot) }),
    {
        OpenOrder {
            id,
            instrument: intent.instrument.duplicate(),
            side: intent.side,
            order_type: ot,
            price,
            remaining_qty: qty,
            original_qty: qty,
            status: OrderStatus::Open,
        }
    }

    fn emit_order_update(o: &OpenOrder) -> (r: AccountEvent)
        ensures
            r == update_event(*o),
    {
        AccountEvent::OrderUpdate {
            id: o.id,
            instrument: o.instrument.duplicate(),
            side: o.side,
            order_type: o.order_type,
            price: o.price,
            remaining_qty: o.remaining_qty,
            original_qty: o.original_qty,
            status: o.status,
        }
    }

    fn balance_updates_after_fill(
        state: &GlobalState,
        side: Side,
        meta: &InstrumentMeta,
        price: Dec,
        qty: Dec,
        fee: Dec,
    ) -> (r: Option<Vec<AccountEvent>>)
        requires
            state.wf(),
        ensures
            match r {
                Some(v) => spec_balance_updates(state, side, *meta, price, qty, fee) == Some(v@),
                None => spec_balance_updates(state, side, *meta, price, qty, fee) is None,
            },
            r matches Some(v) ==> (v@[0] matches AccountEvent::Balance { free, .. } && moves_by(
                free,
                state.balance_or_zero(meta.base@),
                side,
                qty,
            )),
    {
        let base_free = match state.balances.get(&meta.base) {
            Some(b) => *b,
            None => Dec::zero(),
        };
        let quote_free = match state.balances.get(&meta.quote) {
            Some(q) => *q,
            None => Dec::zero(),
        };
        let notional = match checked_mul(price, qty) {
            Some(n) => n,
            None => {
                return None;
            },
        };
        let (new_base, new_quote) = match side {
            Side::Buy => {
                let cost = match checked_add(notional, fee) {
                    Some(c) => c,
                    None => {
                        return None;
                    },
                };
                match (checked_add(base_free, qty), checked_sub(quote_free, cost)) {
                    (Some(b), Some(q)) => (b, q),
                    _ => {
                        return None;
                    },
                }
            },
            Side::Sell => {
                let proceeds = match checked_sub(notional, fee) {
                    Some(p) => p,
                    None => {
                        return None;
                    },
                };
                match (checked_sub(base_free, qty), checked_add(quote_free, proceeds)) {
                    (Some(b), Some(q)) => (b, q),
                    _ => {
                        return None;
                    },
                }
            },
        };
        let mut evs: Vec<AccountEvent> = Vec::new();
        evs.push(AccountEvent::Balance { asset: meta.base.duplicate(), free: new_base });
        evs.push(AccountEvent::Balance { asset: meta.quote.duplicate(), free: new_quote });
        proof {
            assert(evs@ =~= seq![
                AccountEvent::Balance { asset: meta.base, free: new_base },
                AccountEvent::Balance { asset: meta.quote, free: new_quote },
            ]);
        }
        Some(evs)
    }

    fn fill_events(
        &self,
        state: &GlobalState,
        filled: &OpenOrder,
        meta: &InstrumentMeta,
        px: Dec,
        qty: Dec,
    ) -> (r: Option<Vec<AccountEvent>>)
        requires
            state.wf(),
        ensures
            match r {
                Some(v) => spec_fill_events(self.config().fee_bps, state, *filled, *meta, px, qty)
                    == Some(v@),
                None => spec_fill_events(self.config().fee_bps, state, *filled, *meta, px, qty) is None,
            },
            r matches Some(v) ==> (v@[2] matches AccountEvent::Balance { free, .. } && moves_by(
                free,
                state.balance_or_zero(meta.base@),
                filled.side,
                qty,
            )),
    {
        let notional = match checked_mul(px, qty) {
            Some(n) => n,
            None => {
                return None;
            },
        };
        let fee = match Self::fee_notional(notional, self.cfg.fee_bps) {
            Some(f) => f,
            None => {
                return None;
            },
        };
        let bal = match Self::balance_updates_after_fill(state, filled.side, meta, px, qty, fee) {
            Some(b) => b,
            None => {
                return None;
            },
        };
        let mut evs: Vec<AccountEvent> = Vec::new();
        evs.push(Self::emit_order_update(filled));
        evs.push(
            AccountEvent::Fill {
                order_id: filled.id,
                instrument: filled.instrument.duplicate(),
                side: filled.side,
                price: px,
                qty,
                fee,
                fee_asset: meta.quote.duplicate(),
            },
        );
        let mut i: usize = 0;
        let ghost head = evs@;
        while i < bal.len()
            invariant
                i <= bal@.len(),
                evs@ == head + bal@.subrange(0, i as int),
            decreases bal@.len() - i,
        {
            evs.push(copy_account_event(&bal[i]));
            proof {
                assert(bal@.subrange(0, i + 1) =~= bal@.subrange(0, i as int).push(bal@[i as int]));
            }
            i += 1;
        }
        proof {
            assert(bal@.subrange(0, bal@.len() as int) =~= bal@);
            assert(evs@[2] == bal@[0]);
        }
        Some(evs)
    }

    fn crossing_limit(side: Side, limit: Dec, bid: Dec, ask: Dec) -> (r: Option<Dec>)
        ensures
            r == spec_crossing(side, limit, bid, ask),
    {
        match side {
            Side::Buy => if le(ask, limit) {
                Some(ask)
            } else {
                None
            },
            Side::Sell => if le(limit, bid) {
                Some(bid)
            } else {
                None
            },
        }
    }

    /// Place a limit order with the given id: it fills at once at the touch when it crosses the
    /// best bid/ask, otherwise it rests.
    pub fn place_limit_with_id(
        &self,
        state: &GlobalState,
        intent: &OrderIntent,
        id: OrderId,
    ) -> (r: Result<Vec<AccountEvent>, Error>)
        requires
            state.wf(),
        ensures
            paper_matches(self.spec_place_limit(state, intent, id), r),
    {
        if intent.order_type != OrderType::Limit {
            return Err(Error::Invalid("place_limit requires limit intent".to_owned()));
        }
        let price = match intent.price {
            Some(p) => p,
            None => {
                return Err(Error::Invalid("limit needs price".to_owned()));
            },
        };
        let meta = match Self::meta(state, &intent.instrument) {
            Ok(m) => m,
            Err(e) => {
                return Err(e);
            },
        };
        let mut o = Self::build_open(id, intent, intent.qty, Some(price), OrderType::Limit);
        match state.l1.get(&intent.instrument) {
            Some(q) => {
                let (_, bid, ask) = *q;
                match Self::crossing_limit(intent.side, price, bid, ask) {
                    Some(px) => {
                        o.remaining_qty = Dec::zero();
                        o.status = OrderStatus::Filled;
                        return match self.fill_events(state, &o, meta, px, intent.qty) {
                            Some(evs) => Ok(evs),
                            None => Err(Error::Invalid(overflow_message())),
                        };
                    },
                    None => {},
                }
            },
            None => {},
        }
        let mut evs: Vec<AccountEvent> = Vec::new();
        evs.push(Self::emit_order_update(&o));
        proof {
            assert(evs@ =~= seq![update_event(o)]);
        }
        Ok(evs)
    }

    /// Place a limit order under a fresh random id.
    pub fn place_limit(&self, state: &GlobalState, intent: &OrderIntent) -> (r: Result<
        Vec<AccountEvent>,
        Error,
    >)
        requires
            state.wf(),
        ensures
            exists|id: OrderId| paper_matches(self.spec_place_limit(state, intent, id), r),
    {
        let id = OrderId::new_v4();
        self.place_limit_with_id(state, intent, id)
    }

    /// Place a market order with the given id: it fills at once at the mid (or last) price
    /// moved by the slippage.
    pub fn place_market_with_id(
        &self,
        state: &GlobalState,
        intent: &OrderIntent,
        id: OrderId,
    ) -> (r: Result<Vec<AccountEvent>, Error>)
        requires
            state.wf(),
        ensures
            paper_matches(self.spec_place_market(state, intent, id), r),
            r matches Ok(v) ==> (v@[2] matches AccountEvent::Balance { asset, free } && asset
                == state.instruments.as_map()[intent.instrument@].base && moves_by(
                free,
                state.balance_or_zero(asset@),
                intent.side,
                intent.qty,
            )),
    {
        let meta = match Self::meta(state, &intent.instrument) {
            Ok(m) => m,
            Err(e) => {
                return Err(e);
            },
        };
        let mid = match state.try_mid_or_last(&intent.instrument) {
            Ok(Some(m)) => m,
            Ok(None) => {
                return Err(Error::Invalid("no mid/last for market order".to_owned()));
            },
            Err(_) => {
                return Err(Error::Invalid(overflow_message()));
            },
        };
        let px = match apply_slippage(intent.side, mid, self.cfg.market_slippage_bps) {
            Some(p) => p,
            None => {
                return Err(Error::Invalid(overflow_message()));
            },
        };
        let mut o = Self::build_open(id, intent, intent.qty, None, OrderType::Market);
        o.remaining_qty = Dec::zero();
        o.status = OrderStatus::Filled;
        match self.fill_events(state, &o, meta, px, intent.qty) {
            Some(evs) => Ok(evs),
            None => Err(Error::Invalid(overflow_message())),
        }
    }

    /// Place a market order under a fresh random id.
    pub fn place_market(&self, state: &GlobalState, intent: &OrderIntent) -> (r: Result<
        Vec<AccountEvent>,
        Error,
    >)
        requires
            state.wf(),
        ensures
            exists|id: OrderId| paper_matches(self.spec_place_market(state, intent, id), r),
            r matches Ok(v) ==> (v@[2] matches AccountEvent::Balance { asset, free } && asset
                == state.instruments.as_map()[intent.instrument@].base && moves_by(
                free,
                state.balance_or_zero(asset@),
                intent.side,
                intent.qty,
            )),
    {
        let id = OrderId::new_v4();
        self.place_market_with_id(state, intent, id)
    }

    /// Cancel one order: it is reported canceled with nothing left.
    pub fn cancel(&self, state: &GlobalState, order_id: OrderId) -> (r: Result<
        Vec<AccountEvent>,
        Error,
    >)
        requires
            state.wf(),
        ensures
            paper_matches(
                if state.open_orders.as_map().dom().contains(order_id@) {
                    Ok(
                        seq![
                            update_event(
                                closed_as(
                                    state.open_orders.as_map()[order_id@],
                                    OrderStatus::Canceled,
                                ),
                            ),
                        ],
                    )
                } else {
                    Err("unknown order"@)
                },
                r,
            ),
    {
        match state.open_orders.get(&order_id) {
            Some(o) => {
                let mut c = o.duplicate();
                c.status = OrderStatus::Canceled;
                c.remaining_qty = Dec::zero();
                let mut evs: Vec<AccountEvent> = Vec::new();
                evs.push(Self::emit_order_update(&c));
                proof {
                    assert(evs@ =~= seq![update_event(closed_as(*o, OrderStatus::Canceled))]);
                }
                Ok(evs)
            },
            None => Err(Error::Invalid("unknown order".to_owned())),
        }
    }

    /// Cancel all working orders: each is reported canceled with nothing left.
    pub fn cancel_all(&self, state: &GlobalState) -> (r: Result<Vec<AccountEvent>, Error>)
        requires
            state.wf(),
        ensures
            r matches Ok(v) && v@ == state.open_orders.entries().map_values(
                |e: (u128, OpenOrder)| update_event(closed_as(e.1, OrderStatus::Canceled)),
            ),
    {
        let mut out: Vec<AccountEvent> = Vec::new();
        let n = state.open_orders.len();
        let mut i: usize = 0;
        while i < n
            invariant
                n == state.open_orders.entries().len(),
                i <= n,
                out@ == state.open_orders.entries().subrange(0, i as int).map_values(
                    |e: (u128, OpenOrder)| update_event(closed_as(e.1, OrderStatus::Canceled)),
                ),
            decreases n - i,
        {
            let mut c = state.open_orders.value_at(i).duplicate();
            c.status = OrderStatus::Canceled;
            c.remaining_qty = Dec::zero();
            out.push(Self::emit_order_update(&c));
            proof {
                assert(state.open_orders.entries().subrange(0, i + 1) =~= state.open_orders.entries().subrange(0, i as int).push(state.open_orders.entries()[i as int]));
                assert(out@ =~= state.open_orders.entries().subrange(0, i + 1).map_values(
                    |e: (u128, OpenOrder)| update_event(closed_as(e.1, OrderStatus::Canceled)),
                ));
            }
            i += 1;
        }
        proof {
            assert(state.open_orders.entries().subrange(0, n as int) =~= state.open_orders.entries());
        }
        Ok(out)
    }

    /// Passive fills after a market event: each resting limit order that the last trade
    /// touches fills in full at the last trade price.
    pub fn poll_after_market(&self, state: &GlobalState) -> (r: Result<Vec<AccountEvent>, Error>)
        requires
            state.wf(),
        ensures
            paper_matches(or_overflow(self.spec_poll(state, state.open_orders.entries().len())), r),
    {
        let mut out: Vec<AccountEvent> = Vec::new();
        let n = state.open_orders.len();
        let mut i: usize = 0;
        while i < n
            invariant
                state.wf(),
                n == state.open_orders.entries().len(),
                i <= n,
                self.spec_poll(state, i as nat) == Some(out@),
            decreases n - i,
        {
            let o = state.open_orders.value_at(i);
            if o.order_type == OrderType::Limit && o.price.is_some() {
                let limit = o.price.unwrap();
                match state.last_trade.get(&o.instrument) {
                    Some(t) => {
                        let last_px = t.1;
                        match state.instruments.get(&o.instrument) {
                            Some(meta) => {
                                let fill = match o.side {
                                    Side::Buy => if le(last_px, limit) {
                                        Some(last_px)
                                    } else {
                                        None
                                    },
                                    Side::Sell => if le(limit, last_px) {
                                        Some(last_px)
                                    } else {
                                        None
                                    },
                                };
                                match fill {
                                    Some(px) => {
                                        let mut filled = o.duplicate();
                                        filled.remaining_qty = Dec::zero();
                                        filled.status = OrderStatus::Filled;
                                        match self.fill_events(state, &filled, meta, px, o.remaining_qty) {
                                            Some(evs) => {
                                                let ghost prev = out@;
                                                let mut j: usize = 0;
                                                while j < evs.len()
                                                    invariant
                                                        j <= evs@.len(),
                                                        out@ == prev + evs@.subrange(0, j as int),
                                                    decreases evs@.len() - j,
                                                {
                                                    out.push(copy_account_event(&evs[j]));
                                                    proof {
                                                        assert(evs@.subrange(0, j + 1) =~= evs@.subrange(0, j as int).push(evs@[j as int]));
                                                    }
                                                    j += 1;
                                                }
                                                proof {
                                                    assert(evs@.subrange(0, evs@.len() as int) =~= evs@);
                                                }
                                            },
                                            None => {
                                                proof {
                                                    self.lemma_poll_none_after(state, (i + 1) as nat, n as nat);
                                                }
                                                return Err(Error::Invalid(overflow_message()));
                                            },
                                        }
                                    },
                                    None => {},
                                }
                            },
                            None => {},
                        }
                    },
                    None => {},
                }
            }
            i += 1;
        }
        Ok(out)
    }

    proof fn lemma_poll_none_after(&self, state: &GlobalState, i: nat, n: nat)
        requires
            i <= n,
            self.spec_poll(state, i) is None,
        ensures
            self.spec_poll(state, n) is None,
        decreases n - i,
    {
        if i < n {
            self.lemma_poll_none_after(state, i, (n - 1) as nat);
        }
    }
}

/// An identical copy of an account event.
pub fn copy_account_event(e: &AccountEvent) -> (r: AccountEvent)
    ensures
        r == *e,
{
    match e {
        AccountEvent::Balance { asset, free } => AccountEvent::Balance {
            asset: asset.duplicate(),
            free: *free,
        },
        AccountEvent::OrderUpdate {
            id,
            instrument,
            side,
            order_type,
            price,
            remaining_qty,
            original_qty,
            status,
        } => AccountEvent::OrderUpdate {
            id: *id,
            instrument: instrument.duplicate(),
            side: *side,
            order_type: *order_type,
            price: *price,
            remaining_qty: *remaining_qty,
            original_qty: *original_qty,
            status: *status,
        },
        AccountEvent::Fill { order_id, instrument, side, price, qty, fee, fee_asset } => {
            AccountEvent::Fill {
                order_id: *order_id,
                instrument: instrument.duplicate(),
                side: *side,
                price: *price,
                qty: *qty,
                fee: *fee,
                fee_asset: fee_asset.duplicate(),
            }
        },
    }
}

} // verus!
