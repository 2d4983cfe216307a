//! Authoritative in-memory book, balances, orders, and positions.

use crate::decimal::{
    abs_int, checked_add, checked_div, checked_mul, decimal_ops_exact, decimal_product,
    decimal_quotient, decimal_sum, exact_product, exact_sum, max_scale, value_is, Dec,
    MAX_MANTISSA,
};
use crate::error::Error;
use crate::events::{AccountEvent, BookL2Snapshot, MarketEvent};
use crate::keyed::{lemma_entries_map, Duplicate, KeyedVec};
use crate::timestamp::{local_seconds_of, unix_seconds_of, Timestamp};
use crate::types::{Asset, InstrumentId, OpenOrder, OrderId, OrderStatus, Side};
use vstd::prelude::*;

verus! {

/// Static metadata for an instrument (base/quote assets).
#[derive(Debug)]
pub struct InstrumentMeta {
    /// Base asset (e.g. BTC).
    pub base: Asset,
    /// Quote asset (e.g. USDT).
    pub quote: Asset,
}

impl Duplicate for InstrumentMeta {
    fn duplicate(&self) -> (r: Self) {
        InstrumentMeta { base: self.base.duplicate(), quote: self.quote.duplicate() }
    }
}

/// View of an instrument key.
pub type InstrumentKey = (Seq<char>, Seq<char>);

/// Central view updated serially by the engine.
#[derive(Debug)]
pub struct GlobalState {
    /// Registered instruments.
    pub instruments: KeyedVec<InstrumentId, InstrumentMeta>,
    /// Last trade (time, price).
    pub last_trade: KeyedVec<InstrumentId, (Timestamp, Dec)>,
    /// Best bid/ask (time, bid, ask).
    pub l1: KeyedVec<InstrumentId, (Timestamp, Dec, Dec)>,
    /// Open orders by id.
    pub open_orders: KeyedVec<OrderId, OpenOrder>,
    /// Free balances.
    pub balances: KeyedVec<Asset, Dec>,
    /// Net base position per instrument (signed).
    pub positions: KeyedVec<InstrumentId, Dec>,
    /// Latest shallow L2 snapshot per instrument (if subscribed).
    pub l2: KeyedVec<InstrumentId, BookL2Snapshot>,
    /// Mark-to-market equity anchor (Julian day of the UTC date, equity) for the daily loss rule.
    pub risk_day_anchor: Option<(i32, Dec)>,
    /// When set, [`GlobalState::refresh_daily_risk_anchor`] uses this quote for the day rollover.
    pub daily_risk_quote: Option<Asset>,
    /// Trading paused (risk/engine).
    pub paused: bool,
}

/// The decimal 2.
pub open spec fn two() -> Dec {
    Dec::of(2, 0)
}

/// The decimal 0.
pub open spec fn zero() -> Dec {
    Dec::of(0, 0)
}

/// The decimal 1.
pub open spec fn one() -> Dec {
    Dec::of(1, 0)
}

/// The decimal -1.
pub open spec fn minus_one() -> Dec {
    Dec::of(-1, 0)
}

/// The book of `after` is that of `before` updated by the market event `ev`: a trade sets
/// the last trade, a best bid/ask sets the top of book, a depth snapshot replaces the
/// instrument's snapshot; the rest of the book is unchanged.
pub open spec fn market_applied(before: GlobalState, after: GlobalState, ev: MarketEvent) -> bool {
    match ev {
        MarketEvent::Trade { instrument, ts, price, .. } => {
            &&& after.last_trade.as_map() == before.last_trade.as_map().insert(
                instrument@,
                (ts, price),
            )
            &&& after.l1 == before.l1
            &&& after.l2 == before.l2
        },
        MarketEvent::BookL1 { instrument, ts, bid, ask } => {
            &&& after.l1.as_map() == before.l1.as_map().insert(instrument@, (ts, bid, ask))
            &&& after.last_trade == before.last_trade
            &&& after.l2 == before.l2
        },
        MarketEvent::BookL2Snapshot(snap) => {
            &&& after.l2.as_map().dom() == before.l2.as_map().dom().insert(snap.instrument@)
            &&& forall|k: InstrumentKey|
                k != snap.instrument@ && before.l2.as_map().dom().contains(k)
                    ==> #[trigger] after.l2.as_map()[k] == before.l2.as_map()[k]
            &&& after.l2.as_map()[snap.instrument@].instrument == snap.instrument
            &&& after.l2.as_map()[snap.instrument@].ts == snap.ts
            &&& after.l2.as_map()[snap.instrument@].bids@ == snap.bids@
            &&& after.l2.as_map()[snap.instrument@].asks@ == snap.asks@
            &&& after.last_trade == before.last_trade
            &&& after.l1 == before.l1
        },
    }
}

/// `a` and `b` hold the same book (last trades, tops of book, depth snapshots).
pub open spec fn same_market(a: GlobalState, b: GlobalState) -> bool {
    &&& a.last_trade == b.last_trade
    &&& a.l1 == b.l1
    &&& a.l2 == b.l2
}

/// `r` reports a decimal overflow.
pub open spec fn overflowed(r: Result<(), Error>) -> bool {
    r matches Err(Error::Invalid(m)) && m@ == "decimal overflow"@
}

/// `after` is `before` with the account event `ev` applied, the application answering `r`:
/// a balance sets the free balance; an order update stores the order, or drops it once it is
/// no longer open; a fill moves the position by `±qty`, or reports an overflow and leaves the
/// state as it was. The book, instruments, risk anchor and pause flag never change.
pub open spec fn account_step(
    before: GlobalState,
    after: GlobalState,
    ev: AccountEvent,
    r: Result<(), Error>,
) -> bool {
    &&& after.instruments == before.instruments
    &&& after.last_trade == before.last_trade
    &&& after.l1 == before.l1
    &&& after.l2 == before.l2
    &&& after.risk_day_anchor == before.risk_day_anchor
    &&& after.daily_risk_quote == before.daily_risk_quote
    &&& after.paused == before.paused
    &&& match ev {
        AccountEvent::Balance { asset, free } => {
            &&& r is Ok
            &&& after.balances.as_map() == before.balances.as_map().insert(
                asset@,
                free,
            )
            &&& after.open_orders == before.open_orders
            &&& after.positions == before.positions
        },
        AccountEvent::OrderUpdate {
            id,
            instrument,
            side,
            order_type,
            price,
            remaining_qty,
            original_qty,
            status,
        } => {
            &&& r is Ok
            &&& after.open_orders.as_map() == (if status == OrderStatus::Open {
                before.open_orders.as_map().insert(
                    id@,
                    OpenOrder {
                        id,
                        instrument,
                        side,
                        order_type,
                        price,
                        remaining_qty,
                        original_qty,
                        status,
                    },
                )
            } else {
                before.open_orders.as_map().remove(id@)
            })
            &&& after.balances == before.balances
            &&& after.positions == before.positions
        },
        AccountEvent::Fill { instrument, side, qty, .. } => {
            &&& after.open_orders == before.open_orders
            &&& after.balances == before.balances
            &&& signed_qty(side, qty) == Some(exact_signed(side, qty))
            &&& abs_int(exact_sum(before.position_or_zero(instrument@), exact_signed(side, qty)))
                <= MAX_MANTISSA ==> r is Ok && value_is(
                after.positions.as_map()[instrument@],
                exact_sum(before.position_or_zero(instrument@), exact_signed(side, qty)),
                max_scale(before.position_or_zero(instrument@), exact_signed(side, qty)),
            )
            &&& match signed_qty(side, qty) {
                Some(delta) => match decimal_sum(
                    before.position_or_zero(instrument@),
                    delta,
                ) {
                    Some(p) => r is Ok && after.positions.as_map() == before.positions.as_map().insert(instrument@, p),
                    None => overflowed(r) && after.positions == before.positions,
                },
                None => overflowed(r) && after.positions == before.positions,
            }
        },
    }
}

/// Two depth snapshots hold the same instrument, time and levels.
pub open spec fn same_book(a: BookL2Snapshot, b: BookL2Snapshot) -> bool {
    &&& a.instrument == b.instrument
    &&& a.ts == b.ts
    &&& a.bids@ == b.bids@
    &&& a.asks@ == b.asks@
}

/// `qty` for a buy and `-qty` for a sell, exactly (the plain zero for a zero quantity).
pub open spec fn exact_signed(side: Side, qty: Dec) -> Dec {
    if qty.mant() == 0 {
        zero()
    } else {
        match side {
            Side::Buy => Dec::of(qty.mant(), qty.sc()),
            Side::Sell => Dec::of(-qty.mant(), qty.sc()),
        }
    }
}

/// Signed quantity a fill moves the position by: `qty` for a buy, `-qty` for a sell,
/// computed as `±1 * qty`.
pub open spec fn signed_qty(side: Side, qty: Dec) -> Option<Dec> {
    match side {
        Side::Buy => decimal_product(one(), qty),
        Side::Sell => decimal_product(minus_one(), qty),
    }
}

impl GlobalState {
    /// Every map holds each key at most once.
    pub open spec fn wf(&self) -> bool {
        &&& self.instruments.wf()
        &&& self.last_trade.wf()
        &&& self.l1.wf()
        &&& self.open_orders.wf()
        &&& self.balances.wf()
        &&& self.positions.wf()
        &&& self.l2.wf()
    }

    /// Free balance of an asset, zero when absent.
    pub open spec fn balance_or_zero(&self, asset: Seq<char>) -> Dec {
        if self.balances.as_map().dom().contains(asset) {
            self.balances.as_map()[asset]
        } else {
            zero()
        }
    }

    /// Position of an instrument, zero when absent.
    pub open spec fn position_or_zero(&self, inst: InstrumentKey) -> Dec {
        if self.positions.as_map().dom().contains(inst) {
            self.positions.as_map()[inst]
        } else {
            zero()
        }
    }

    /// Mid of the best bid/ask, else the last trade price; `Err` where `(bid + ask) / 2`
    /// overflows the decimal range.
    pub open spec fn mid_or_last_result(&self, inst: InstrumentKey) -> Result<Option<Dec>, ()> {
        if self.l1.as_map().dom().contains(inst) {
            let (_, bid, ask) = self.l1.as_map()[inst];
            match decimal_sum(bid, ask) {
                Some(t) => match decimal_quotient(t, two()) {
                    Some(m) => Ok(Some(m)),
                    None => Err(()),
                },
                None => Err(()),
            }
        } else if self.last_trade.as_map().dom().contains(inst) {
            Ok(Some(self.last_trade.as_map()[inst].1))
        } else {
            Ok(None)
        }
    }

    /// Where the state holds a best bid/ask for `inst`, the price is the mid of that bid and
    /// ask, whatever the last trade: two states with the same best bid/ask for `inst` give the
    /// same answer; the bid-ask sum is computed exactly where it fits, and where its mantissa
    /// is even the price is exactly half of it. Only without a best bid/ask is the last trade
    /// price used, as it is.
    pub proof fn law_mid_prefers_book_over_last_trade(
        &self,
        other: &GlobalState,
        inst: InstrumentKey,
    )
        requires
            decimal_ops_exact(),
        ensures
            self.l1.as_map().dom().contains(inst) && other.l1.as_map().dom().contains(inst)
                && self.l1.as_map()[inst] == other.l1.as_map()[inst] ==> self.mid_or_last_result(
                inst,
            ) == other.mid_or_last_result(inst),
            self.l1.as_map().dom().contains(inst) ==> ({
                let (_, bid, ask) = self.l1.as_map()[inst];
                abs_int(exact_sum(bid, ask)) <= MAX_MANTISSA ==> ({
                    let total = decimal_sum(bid, ask)->0;
                    &&& value_is(total, exact_sum(bid, ask), max_scale(bid, ask))
                    &&& self.mid_or_last_result(inst) matches Ok(Some(m))
                    &&& total.mant() % 2 == 0 ==> value_is(m, total.mant() / 2, total.sc())
                })
            }),
            !self.l1.as_map().dom().contains(inst) && self.last_trade.as_map().dom().contains(inst)
                ==> self.mid_or_last_result(inst) == Ok::<Option<Dec>, ()>(
                Some(self.last_trade.as_map()[inst].1),
            ),
            !self.l1.as_map().dom().contains(inst) && !self.last_trade.as_map().dom().contains(
                inst,
            ) ==> self.mid_or_last_result(inst) == Ok::<Option<Dec>, ()>(None),
    {
        Dec::lemma_of(2, 0);
        if self.l1.as_map().dom().contains(inst) {
            let (_, bid, ask) = self.l1.as_map()[inst];
            if abs_int(exact_sum(bid, ask)) <= MAX_MANTISSA {
                let total = decimal_sum(bid, ask)->0;
                assert(decimal_quotient(total, two()) is Some);
            }
        }
    }

    /// Mark-to-market equity of an instrument's holdings: the free quote balance plus the
    /// free base balance valued at the mid (or last) price, each step exact where it fits.
    pub proof fn law_mark_to_market_values_base_at_mid(&self, inst: InstrumentKey)
        requires
            decimal_ops_exact(),
        ensures
            ({
                let meta = self.instruments.as_map()[inst];
                let base = self.balance_or_zero(meta.base@);
                let quote = self.balance_or_zero(meta.quote@);
                let mid = self.spec_mid_or_last(inst)->0;
                self.instruments.as_map().dom().contains(inst) && self.spec_mid_or_last(inst)
                    is Some && base.sc() + mid.sc() <= crate::decimal::MAX_SCALE && abs_int(
                    base.mant() * mid.mant(),
                ) <= MAX_MANTISSA && abs_int(exact_sum(quote, exact_product(base, mid)))
                    <= MAX_MANTISSA ==> (self.spec_mark_to_market(inst) matches Some(eq)
                    && value_is(
                    eq,
                    exact_sum(quote, exact_product(base, mid)),
                    max_scale(quote, exact_product(base, mid)),
                ))
            }),
            !self.instruments.as_map().dom().contains(inst) || self.spec_mid_or_last(inst)
                is None ==> self.spec_mark_to_market(inst) is None,
    {
        let meta = self.instruments.as_map()[inst];
        let base = self.balance_or_zero(meta.base@);
        let mid = self.spec_mid_or_last(inst)->0;
        if base.sc() + mid.sc() <= crate::decimal::MAX_SCALE && abs_int(base.mant() * mid.mant())
            <= MAX_MANTISSA {
            assert(decimal_product(base, mid) == Some(exact_product(base, mid)));
        }
    }

    /// Mid of the best bid/ask, else the last trade price (`None` also on overflow).
    pub open spec fn spec_mid_or_last(&self, inst: InstrumentKey) -> Option<Dec> {
        match self.mid_or_last_result(inst) {
            Ok(p) => p,
            Err(_) => None,
        }
    }

    /// Equity after valuing the first `n` positions (in storage order) at their mid or last
    /// price (zero when unknown), starting from the free balance of `quote`; `None` on overflow.
    pub open spec fn equity_after(&self, quote: Seq<char>, n: nat) -> Option<Dec>
        decreases n,
    {
        if n == 0 {
            Some(self.balance_or_zero(quote))
        } else {
            match self.equity_after(quote, (n - 1) as nat) {
                None => None,
                Some(eq) => {
                    let (inst, pos) = self.positions.entries()[n - 1];
                    if pos.mant() == 0 {
                        Some(eq)
                    } else {
                        match self.mid_or_last_result(inst) {
                            Err(_) => None,
                            Ok(px) => {
                                let p = match px {
                                    Some(p) => p,
                                    None => zero(),
                                };
                                match decimal_product(pos, p) {
                                    Some(v) => decimal_sum(eq, v),
                                    None => None,
                                }
                            },
                        }
                    }
                },
            }
        }
    }

    /// Mark-to-market equity in `quote`: free `quote` balance plus every nonzero position
    /// valued at its mid or last price.
    pub open spec fn spec_mark_equity(&self, quote: Seq<char>) -> Option<Dec> {
        self.equity_after(quote, self.positions.entries().len())
    }

    /// Equity of one instrument's pair: `quote + base * mid`.
    pub open spec fn spec_mark_to_market(&self, inst: InstrumentKey) -> Option<Dec> {
        match self.spec_mid_or_last(inst) {
            None => None,
            Some(mid) => if self.instruments.as_map().dom().contains(inst) {
                let meta = self.instruments.as_map()[inst];
                let base = self.balance_or_zero(meta.base@);
                let quote = self.balance_or_zero(meta.quote@);
                match decimal_product(base, mid) {
                    Some(v) => decimal_sum(quote, v),
                    None => None,
                }
            } else {
                None
            },
        }
    }

    /// New empty state with initial balances.
    pub fn new(
        instruments: KeyedVec<InstrumentId, InstrumentMeta>,
        initial_balances: KeyedVec<Asset, Dec>,
    ) -> (r: Self)
        requires
            instruments.wf(),
            initial_balances.wf(),
        ensures
            r.wf(),
            r.instruments == instruments,
            r.balances == initial_balances,
            r.last_trade.as_map().is_empty(),
            r.l1.as_map().is_empty(),
            r.open_orders.as_map().is_empty(),
            r.positions.as_map().is_empty(),
            r.positions.entries().len() == 0,
            r.l2.as_map().is_empty(),
            r.risk_day_anchor is None,
            r.daily_risk_quote is None,
            !r.paused,
    {
        GlobalState {
            instruments,
            last_trade: KeyedVec::new(),
            l1: KeyedVec::new(),
            open_orders: KeyedVec::new(),
            balances: initial_balances,
            positions: KeyedVec::new(),
            l2: KeyedVec::new(),
            risk_day_anchor: None,
            daily_risk_quote: None,
            paused: false,
        }
    }

    /// Mid or last price, telling a missing price (`Ok(None)`) from an overflow (`Err`).
    pub fn try_mid_or_last(&self, inst: &InstrumentId) -> (r: Result<Option<Dec>, ()>)
        requires
            self.wf(),
        ensures
            r == self.mid_or_last_result(inst@),
    {
        match self.l1.get(inst) {
            Some(q) => {
                let (_, bid, ask) = *q;
                match checked_add(bid, ask) {
                    Some(t) => match checked_div(t, Dec::from_u64(2)) {
                        Some(m) => Ok(Some(m)),
                        None => Err(()),
                    },
                    None => Err(()),
                }
            },
            None => match self.last_trade.get(inst) {
                Some(t) => Ok(Some(t.1)),
                None => Ok(None),
            },
        }
    }

    /// Mid price `(bid + ask) / 2`, or the last trade price when there is no best bid/ask;
    /// `None` without either, or where the mid overflows the decimal range.
    pub fn mid_or_last(&self, inst: &InstrumentId) -> (r: Option<Dec>)
        requires
            self.wf(),
        ensures
            r == self.spec_mid_or_last(inst@),
    {
        match self.try_mid_or_last(inst) {
            Ok(p) => p,
            Err(_) => None,
        }
    }

    /// Mark-to-market equity in `quote` using mids (positions valued at [`Self::mid_or_last`],
    /// zero when unknown); `None` where the sum overflows the decimal range.
    pub fn mark_equity_quote(&self, quote: &Asset) -> (r: Option<Dec>)
        requires
            self.wf(),
        ensures
            r == self.spec_mark_equity(quote@),
    {
        let mut eq: Dec = match self.balances.get(quote) {
            Some(b) => *b,
            None => Dec::zero(),
        };
        let n = self.positions.len();
        let mut i: usize = 0;
        while i < n
            invariant
                self.wf(),
                n == self.positions.entries().len(),
                i <= n,
                self.equity_after(quote@, i as nat) == Some(eq),
            decreases n - i,
        {
            let pos = *self.positions.value_at(i);
            if !pos.is_zero() {
                let inst = self.positions.key_at(i);
                let px = match self.try_mid_or_last(inst) {
                    Ok(Some(p)) => p,
                    Ok(None) => Dec::zero(),
                    Err(_) => {
                        proof {
                            self.lemma_equity_none_after(quote@, (i + 1) as nat, n as nat);
                        }
                        return None;
                    },
                };
                match checked_mul(pos, px) {
                    Some(v) => match checked_add(eq, v) {
                        Some(e) => {
                            eq = e;
                        },
                        None => {
                            proof {
                                self.lemma_equity_none_after(quote@, (i + 1) as nat, n as nat);
                            }
                            return None;
                        },
                    },
                    None => {
                        proof {
                            self.lemma_equity_none_after(quote@, (i + 1) as nat, n as nat);
                        }
                        return None;
                    },
                }
            }
            i += 1;
        }
        Some(eq)
    }

    /// With every position flat, the mark-to-market equity is the free balance of the quote
    /// asset.
    pub proof fn law_flat_equity_is_cash(&self, quote: Seq<char>)
        requires
            forall|k: int|
                0 <= k < self.positions.entries().len() ==> #[trigger] self.positions.entries()[k].1.mant()
                    == 0,
        ensures
            self.spec_mark_equity(quote) == Some(self.balance_or_zero(quote)),
    {
        self.lemma_flat_prefix(quote, self.positions.entries().len());
    }

    proof fn lemma_flat_prefix(&self, quote: Seq<char>, n: nat)
        requires
            n <= self.positions.entries().len(),
            forall|k: int|
                0 <= k < self.positions.entries().len() ==> #[trigger] self.positions.entries()[k].1.mant()
                    == 0,
        ensures
            self.equity_after(quote, n) == Some(self.balance_or_zero(quote)),
        decreases n,
    {
        if n > 0 {
            self.lemma_flat_prefix(quote, (n - 1) as nat);
            assert(self.positions.entries()[n - 1].1.mant() == 0);
        }
    }

    /// Once the running equity overflows, it stays `None`.
    proof fn lemma_equity_none_after(&self, quote: Seq<char>, i: nat, n: nat)
        requires
            i <= n,
            self.equity_after(quote, i) is None,
        ensures
            self.equity_after(quote, n) is None,
        decreases n - i,
    {
        if i < n {
            self.lemma_equity_none_after(quote, i, (n - 1) as nat);
        }
    }

    /// The daily anchor can be refreshed at any time without overflow: no quote asset is set,
    /// or the equity in it is in range.
    pub open spec fn anchor_refresh_safe(&self) -> bool {
        match self.daily_risk_quote {
            None => true,
            Some(q) => self.spec_mark_equity(q@) is Some,
        }
    }

    /// States with the same balances, positions and prices have the same equity.
    pub proof fn lemma_equity_same_holdings(&self, other: &GlobalState, quote: Seq<char>)
        requires
            self.balances == other.balances,
            self.positions == other.positions,
            self.l1 == other.l1,
            self.last_trade == other.last_trade,
        ensures
            self.spec_mark_equity(quote) == other.spec_mark_equity(quote),
    {
        self.lemma_equity_after_same(other, quote, self.positions.entries().len());
    }

    proof fn lemma_equity_after_same(&self, other: &GlobalState, quote: Seq<char>, n: nat)
        requires
            self.balances == other.balances,
            self.positions == other.positions,
            self.l1 == other.l1,
            self.last_trade == other.last_trade,
        ensures
            self.equity_after(quote, n) == other.equity_after(quote, n),
        decreases n,
    {
        if n > 0 {
            self.lemma_equity_after_same(other, quote, (n - 1) as nat);
            let inst = self.positions.entries()[n - 1].0;
            assert(self.mid_or_last_result(inst) == other.mid_or_last_result(inst));
        }
    }

    /// UTC day number (Julian) of `now`.
    pub open spec fn day_of(now: Timestamp) -> int {
        unix_seconds_of(now.nanos()) / 86400 + 2440588
    }

    /// At `now` the daily anchor rolls over: a quote asset is set, and there is no anchor yet
    /// or it is of another UTC day.
    pub open spec fn anchor_rolls(&self, now: Timestamp) -> bool {
        match self.daily_risk_quote {
            None => false,
            Some(_) => match self.risk_day_anchor {
                None => true,
                Some((day, _)) => day != Self::day_of(now),
            },
        }
    }

    /// A refresh at `now` fails: the anchor rolls and the equity overflows.
    pub open spec fn refresh_fails(&self, now: Timestamp) -> bool {
        self.anchor_rolls(now) && match self.daily_risk_quote {
            Some(q) => self.spec_mark_equity(q@) is None,
            None => false,
        }
    }

    /// The anchor after a refresh at `now`: `(day of now, equity)` when it rolls over and the
    /// equity is in range, else unchanged.
    pub open spec fn refreshed_anchor(&self, now: Timestamp) -> Option<(i32, Dec)> {
        if self.anchor_rolls(now) {
            match self.daily_risk_quote {
                Some(q) => match self.spec_mark_equity(q@) {
                    Some(eq) => Some((Self::day_of(now) as i32, eq)),
                    None => self.risk_day_anchor,
                },
                None => self.risk_day_anchor,
            }
        } else {
            self.risk_day_anchor
        }
    }

    /// Refreshing the daily anchor twice at the same instant changes nothing the second time:
    /// once a refresh at `now` has succeeded, the anchor no longer rolls at `now`.
    pub proof fn law_refresh_idempotent(&self, now: Timestamp)
        requires
            now.well_formed(),
            !self.refresh_fails(now),
        ensures
            ({
                let once = GlobalState { risk_day_anchor: self.refreshed_anchor(now), ..*self };
                !once.anchor_rolls(now) && once.refreshed_anchor(now) == once.risk_day_anchor
            }),
    {
        let secs = unix_seconds_of(now.nanos());
        assert(local_seconds_of(now.nanos(), now.offset()) == secs + now.offset());
        assert(-377705210399 <= secs <= 253402394398);
        vstd::arithmetic::div_mod::lemma_fundamental_div_mod(secs, 86400);
        vstd::arithmetic::div_mod::lemma_mod_bound(secs, 86400);
        assert(-5000000 < secs / 86400 < 5000000);
    }

    /// Refresh the equity anchor of the daily loss rule on the first tick or a new UTC day:
    /// when a quote asset is set, the anchor becomes `(day of now, equity in that quote)`.
    /// `Err` (state unchanged) where the equity overflows the decimal range.
    pub fn refresh_daily_risk_anchor(&mut self, now: Timestamp) -> (r: Result<(), Error>)
        requires
            old(self).wf(),
        ensures
            final(self).wf(),
            final(self).instruments == old(self).instruments,
            final(self).last_trade == old(self).last_trade,
            final(self).l1 == old(self).l1,
            final(self).open_orders == old(self).open_orders,
            final(self).balances == old(self).balances,
            final(self).positions == old(self).positions,
            final(self).l2 == old(self).l2,
            final(self).daily_risk_quote == old(self).daily_risk_quote,
            final(self).paused == old(self).paused,
            r is Err <==> old(self).refresh_fails(now),
            r is Err ==> overflowed(r),
            final(self).risk_day_anchor == old(self).refreshed_anchor(now),
            match old(self).daily_risk_quote {
                None => r is Ok && final(self).risk_day_anchor == old(self).risk_day_anchor,
                Some(q) => {
                    let today = unix_seconds_of(now.nanos()) / 86400 + 2440588;
                    let rolls = match old(self).risk_day_anchor {
                        None => true,
                        Some((day, _)) => day != today,
                    };
                    if !rolls {
                        r is Ok && final(self).risk_day_anchor == old(self).risk_day_anchor
                    } else {
                        match old(self).spec_mark_equity(q@) {
                            Some(eq) => r is Ok && (final(self).risk_day_anchor matches Some((d, e)) && d == today && e == eq),
                            None => r is Err && final(self).risk_day_anchor == old(self).risk_day_anchor,
                        }
                    }
                },
            },
    {
        let today = now.utc_day();
        let rolls = match &self.daily_risk_quote {
            None => false,
            Some(_) => match self.risk_day_anchor {
                None => true,
                Some((day, _)) => day != today,
            },
        };
        if !rolls {
            return Ok(());
        }
        let eq = match &self.daily_risk_quote {
            Some(q) => self.mark_equity_quote(q),
            None => None,
        };
        match eq {
            Some(e) => {
                self.risk_day_anchor = Some((today, e));
                Ok(())
            },
            None => Err(Error::Invalid(overflow_message())),
        }
    }

    /// Apply a market event (read-only book/trade updates).
    pub fn apply_market(&mut self, ev: &MarketEvent)
        requires
            old(self).wf(),
        ensures
            final(self).wf(),
            final(self).instruments == old(self).instruments,
            final(self).open_orders == old(self).open_orders,
            final(self).balances == old(self).balances,
            final(self).positions == old(self).positions,
            final(self).risk_day_anchor == old(self).risk_day_anchor,
            final(self).daily_risk_quote == old(self).daily_risk_quote,
            final(self).paused == old(self).paused,
            market_applied(*old(self), *final(self), *ev),
    {
        match ev {
            MarketEvent::Trade { instrument, ts, price, .. } => {
                self.last_trade.insert(instrument.duplicate(), (*ts, *price));
            },
            MarketEvent::BookL1 { instrument, ts, bid, ask } => {
                self.l1.insert(instrument.duplicate(), (*ts, *bid, *ask));
            },
            MarketEvent::BookL2Snapshot(snap) => {
                let copy = snap.duplicate();
                self.l2.insert(snap.instrument.duplicate(), copy);
                proof {
                    assert(self.l2.as_map().dom() =~= old(self).l2.as_map().dom().insert(
                        snap.instrument@,
                    ));
                }
            },
        }
    }

    /// Apply an account event: a balance sets the free balance; an order update stores the
    /// order, or drops it once filled, canceled or rejected; a fill moves the position by
    /// `±qty`. `Err` (state unchanged) where the position overflows the decimal range.
    pub fn apply_account(&mut self, ev: &AccountEvent) -> (r: Result<(), Error>)
        requires
            old(self).wf(),
        ensures
            final(self).wf(),
            account_step(*old(self), *final(self), *ev, r),
    {
        match ev {
            AccountEvent::Balance { asset, free } => {
                self.balances.insert(asset.duplicate(), *free);
                Ok(())
            },
            AccountEvent::OrderUpdate {
                id,
                instrument,
                side,
                order_type,
                price,
                remaining_qty,
                original_qty,
                status,
            } => {
                match status {
                    OrderStatus::Open => {
                        let o = OpenOrder {
                            id: *id,
                            instrument: instrument.duplicate(),
                            side: *side,
                            order_type: *order_type,
                            price: *price,
                            remaining_qty: *remaining_qty,
                            original_qty: *original_qty,
                            status: *status,
                        };
                        self.open_orders.insert(*id, o);
                    },
                    _ => {
                        self.open_orders.remove(id);
                    },
                }
                Ok(())
            },
            AccountEvent::Fill { instrument, side, qty, .. } => {
                let sign = match side {
                    Side::Buy => Dec::one(),
                    Side::Sell => Dec::new(-1, 0),
                };
                proof {
                    use_type_invariant(qty);
                    let q = *qty;
                    assert(sign.mant() * q.mant() == if *side == Side::Buy { q.mant() } else { -q.mant() }) by (nonlinear_arith)
                        requires sign.mant() == (if *side == Side::Buy { 1int } else { -1int });
                    Dec::lemma_of(sign.mant() * q.mant(), q.sc());
                    if q.mant() != 0 {
                        Dec::lemma_ext(exact_product(sign, q), exact_signed(*side, q));
                    }
                }
                let delta = match checked_mul(sign, *qty) {
                    Some(d) => d,
                    None => {
                        return Err(Error::Invalid(overflow_message()));
                    },
                };
                let current = match self.positions.get(instrument) {
                    Some(p) => *p,
                    None => Dec::zero(),
                };
                match checked_add(current, delta) {
                    Some(p) => {
                        self.positions.insert(instrument.duplicate(), p);
                        Ok(())
                    },
                    None => Err(Error::Invalid(overflow_message())),
                }
            },
        }
    }

    /// Mark-to-market equity of an instrument's pair: `quote + base * mid`; `None` without a
    /// mid or last price, for an unregistered instrument, or on overflow.
    pub fn mark_to_market_equity(&self, inst: &InstrumentId) -> (r: Option<Dec>)
        requires
            self.wf(),
        ensures
            r == self.spec_mark_to_market(inst@),
    {
        let mid = match self.mid_or_last(inst) {
            Some(m) => m,
            None => {
                return None;
            },
        };
        let meta = match self.instruments.get(inst) {
            Some(m) => m,
            None => {
                return None;
            },
        };
        let base = match self.balances.get(&meta.base) {
            Some(b) => *b,
            None => Dec::zero(),
        };
        let quote = match self.balances.get(&meta.quote) {
            Some(q) => *q,
            None => Dec::zero(),
        };
        match checked_mul(base, mid) {
            Some(v) => checked_add(quote, v),
            None => None,
        }
    }

    /// A copy of the state, for read-only use by risk checks and strategies.
    pub fn snapshot(&self) -> (r: GlobalState)
        requires
            self.wf(),
        ensures
            r.wf(),
            r.instruments.entries() == self.instruments.entries(),
            r.last_trade.entries() == self.last_trade.entries(),
            r.l1.entries() == self.l1.entries(),
            r.open_orders.entries() == self.open_orders.entries(),
            r.balances.entries() == self.balances.entries(),
            r.positions.entries() == self.positions.entries(),
            r.l2.as_map().dom() == self.l2.as_map().dom(),
            forall|k: InstrumentKey|
                #![trigger r.l2.as_map()[k]]
                self.l2.as_map().dom().contains(k) ==> same_book(r.l2.as_map()[k], self.l2.as_map()[k]),
            r.risk_day_anchor == self.risk_day_anchor,
            r.daily_risk_quote == self.daily_risk_quote,
            r.paused == self.paused,
    {
        let mut l2: KeyedVec<InstrumentId, BookL2Snapshot> = KeyedVec::new();
        let n = self.l2.len();
        let mut i: usize = 0;
        while i < n
            invariant
                self.wf(),
                n == self.l2.entries().len(),
                i <= n,
                l2.wf(),
                l2.as_map().dom() == Set::new(
                    |k: InstrumentKey| exists|j: int| 0 <= j < i && self.l2.entries()[j].0 == k,
                ),
                forall|k: InstrumentKey|
                    #![trigger l2.as_map()[k]]
                    l2.as_map().dom().contains(k) ==> same_book(l2.as_map()[k], self.l2.as_map()[k]),
            decreases n - i,
        {
            let k = self.l2.key_at(i);
            let v = self.l2.value_at(i);
            let ghost before = l2.as_map();
            l2.insert(k.duplicate(), v.duplicate());
            proof {
                lemma_entries_map(self.l2.entries(), i as int);
                assert forall|k2: InstrumentKey|
                    #![trigger l2.as_map()[k2]]
                    l2.as_map().dom().contains(k2) implies same_book(
                    l2.as_map()[k2],
                    self.l2.as_map()[k2],
                ) by {
                    if k2 != k@ {
                        assert(before.dom().contains(k2));
                        assert(l2.as_map()[k2] == before[k2]);
                    }
                }
                assert(l2.as_map().dom() =~= Set::new(
                    |k: InstrumentKey|
                        exists|j: int| 0 <= j < i + 1 && self.l2.entries()[j].0 == k,
                )) by {
                    assert(self.l2.entries()[i as int].0 == k@);
                }
            }
            i += 1;
        }
        proof {
            assert(l2.as_map().dom() =~= self.l2.as_map().dom());
        }
        GlobalState {
            instruments: self.instruments.duplicate(),
            last_trade: self.last_trade.duplicate(),
            l1: self.l1.duplicate(),
            open_orders: self.open_orders.duplicate(),
            balances: self.balances.duplicate(),
            positions: self.positions.duplicate(),
            l2,
            risk_day_anchor: self.risk_day_anchor,
            daily_risk_quote: match &self.daily_risk_quote {
                Some(q) => Some(q.duplicate()),
                None => None,
            },
            paused: self.paused,
        }
    }
}

/// Message of the error reported where a decimal result leaves the representable range.
pub fn overflow_message() -> (r: String)
    ensures
        r@ == "decimal overflow"@,
{
    "decimal overflow".to_owned()
}

} // verus!
