//! Engine decisions for one event: market -> (passive fills) -> strategy -> risk -> execution.
//!
//! Processing an event alternates local decisions with calls to an execution gateway. An
//! [`EventCycle`] makes the decisions: each [`EventCycle::advance`] either asks for one gateway
//! call ([`EngineStep::Request`]), asks the strategy for its intents
//! ([`EngineStep::AskStrategy`]), or finishes ([`EngineStep::Done`]); the caller performs the
//! call and hands its reply, or the intents, to the next `advance`.

use crate::decimal::{exact_sum, max_scale, pow10, Dec};
use crate::error::Error;
use crate::events::{event_timestamp, AccountEvent, ControlEvent, Event, OrderIntent, OrderIntentSource};
use crate::execution::LocalGateway;
use crate::keyed::Duplicate;
use crate::risk::{RiskCheck, RiskPipeline};
use crate::state::{
    account_step, exact_signed, market_applied, overflowed, same_market, GlobalState,
    InstrumentKey,
};
use crate::strategy::{Strategy, StrategyContext};
use crate::timestamp::{now_utc, Timestamp};
use crate::types::{InstrumentId, OrderType, Side};
use vstd::prelude::*;

verus! {

/// Wall-clock timer schedule: every `interval`, a timer event with this `id`.
#[derive(Clone, Copy, Debug)]
pub struct TimerSchedule {
    /// Tick interval.
    pub interval: std::time::Duration,
    /// Identifier delivered on each timer event.
    pub id: u32,
}

/// Engine wiring (channel capacity, optional periodic timers).
#[derive(Debug)]
pub struct EngineConfig {
    /// Channel capacity.
    pub channel_capacity: usize,
    /// Interval timers forwarding timer events into the engine loop.
    pub timer_schedules: Vec<TimerSchedule>,
}

impl Default for EngineConfig {
    fn default() -> (r: Self)
        ensures
            r.channel_capacity == 1024,
            r.timer_schedules@.len() == 0,
    {
        EngineConfig { channel_capacity: 1024, timer_schedules: Vec::new() }
    }
}

/// Builder for running the engine.
#[derive(Clone, Copy, Debug)]
pub struct EngineBuilder;

/// A call the engine needs from the execution gateway.
#[derive(Debug)]
pub enum GatewayRequest {
    /// Passive fills after a market event.
    PollAfterMarket,
    /// Cancel all working orders.
    CancelAll,
    /// Place a limit order.
    PlaceLimit(OrderIntent),
    /// Place a market order.
    PlaceMarket(OrderIntent),
}

/// What the engine does next.
#[derive(Debug)]
pub enum EngineStep {
    /// Perform this gateway call and hand its reply to the next `advance`.
    Request(GatewayRequest),
    /// Ask the strategy for its intents on the current state at the engine time, and hand
    /// them to the next `advance`.
    AskStrategy,
    /// The event is processed, with this result.
    Done(Result<(), Error>),
}

/// Where an event's processing stands.
#[derive(Debug)]
pub enum Phase {
    /// Nothing done yet.
    Start,
    /// Waiting for the passive fills after a market event.
    AwaitPoll,
    /// Waiting for the cancel-all reply; a flatten command then closes the positions.
    AwaitCancelAll { then_flatten: bool },
    /// Waiting for the reply to the flatten order of `insts[next]`.
    AwaitFlattenFill { insts: Vec<InstrumentId>, next: usize },
    /// Waiting for the strategy's intents.
    AwaitStrategy,
    /// Waiting for the reply to the order of the strategy's intent `intents[next]`.
    AwaitIntentFill { intents: Vec<OrderIntent>, next: usize },
    /// The event is processed.
    Finished,
}

/// The gateway call that places an intent: a limit order for a limit intent, else a market order.
pub open spec fn place_request(intent: OrderIntent) -> GatewayRequest {
    match intent.order_type {
        OrderType::Limit => GatewayRequest::PlaceLimit(intent),
        OrderType::Market => GatewayRequest::PlaceMarket(intent),
    }
}

/// The market order that closes the position in `inst`: the opposite side, the absolute size,
/// marked as a flatten intent; `None` when the position is zero.
pub open spec fn flatten_intent(state: &GlobalState, inst: InstrumentId) -> Option<OrderIntent> {
    let pos = state.position_or_zero(inst@);
    if pos.mant() == 0 {
        None
    } else {
        Some(
            OrderIntent {
                instrument: inst,
                side: if pos.mant() > 0 {
                    Side::Sell
                } else {
                    Side::Buy
                },
                order_type: OrderType::Market,
                price: None,
                qty: crate::risk::dec_abs(pos),
                client_order_id: None,
                source: OrderIntentSource::Flatten,
            },
        )
    }
}

/// A fill of the flatten order for an instrument closes its position: the order's signed
/// quantity is exactly the negated position, so the position after the fill is exactly zero
/// (and, zero being in range, applying the fill succeeds).
pub proof fn law_flatten_fill_closes_position(state: &GlobalState, inst: InstrumentId)
    requires
        state.position_or_zero(inst@).well_formed(),
        flatten_intent(state, inst) is Some,
    ensures
        ({
            let i = flatten_intent(state, inst)->0;
            let pos = state.position_or_zero(inst@);
            &&& i.instrument@ == inst@
            &&& i.source == OrderIntentSource::Flatten
            &&& exact_sum(pos, exact_signed(i.side, i.qty)) == 0
        }),
{
    let pos = state.position_or_zero(inst@);
    let i = flatten_intent(state, inst)->0;
    Dec::lemma_of(-pos.mant(), pos.sc());
    Dec::lemma_of(pos.mant(), pos.sc());
    if pos.mant() > 0 {
        assert(i.qty == pos);
    } else {
        assert(i.qty == Dec::of(-pos.mant(), pos.sc()));
    }
    let s = exact_signed(i.side, i.qty);
    assert(s.mant() == -pos.mant() && s.sc() == pos.sc());
    assert(max_scale(pos, s) == pos.sc());
    assert(pow10(0) == 1);
}

/// The market order that closes the position in `inst`, if any.
pub fn flatten_intent_for(state: &GlobalState, inst: &InstrumentId) -> (r: Option<OrderIntent>)
    requires
        state.wf(),
    ensures
        r == flatten_intent(state, *inst),
{
    let pos = match state.positions.get(inst) {
        Some(p) => *p,
        None => Dec::zero(),
    };
    if pos.is_zero() {
        return None;
    }
    let qty = pos.abs();
    proof {
        use_type_invariant(&pos);
        if pos.mant() < 0 {
            Dec::lemma_of(-pos.mant(), pos.sc());
        }
        Dec::lemma_ext(qty, crate::risk::dec_abs(pos));
    }
    Some(
        OrderIntent {
            instrument: inst.duplicate(),
            side: if pos.is_positive() {
                Side::Sell
            } else {
                Side::Buy
            },
            order_type: OrderType::Market,
            price: None,
            qty,
            client_order_id: None,
            source: OrderIntentSource::Flatten,
        },
    )
}

/// The instruments holding a nonzero position, in storage order.
pub open spec fn nonzero_position_keys(state: &GlobalState) -> Seq<InstrumentKey> {
    state.positions.entries().filter(|e: (InstrumentKey, Dec)| e.1.mant() != 0).map_values(
        |e: (InstrumentKey, Dec)| e.0,
    )
}

/// The instruments that hold a nonzero position, in storage order.
pub fn flatten_instruments(state: &GlobalState) -> (r: Vec<InstrumentId>)
    requires
        state.wf(),
    ensures
        r@.map_values(|i: InstrumentId| i@) == nonzero_position_keys(state),
{
    let mut out: Vec<InstrumentId> = Vec::new();
    let n = state.positions.len();
    let mut i: usize = 0;
    let ghost pred = |e: (InstrumentKey, Dec)| e.1.mant() != 0;
    let ghost key = |e: (InstrumentKey, Dec)| e.0;
    while i < n
        invariant
            n == state.positions.entries().len(),
            i <= n,
            pred == (|e: (InstrumentKey, Dec)| e.1.mant() != 0),
            key == (|e: (InstrumentKey, Dec)| e.0),
            out@.map_values(|i: InstrumentId| i@) == state.positions.entries().take(i as int).filter(
                pred,
            ).map_values(key),
        decreases n - i,
    {
        let ghost prev = out@;
        let ghost e = state.positions.entries();
        if !state.positions.value_at(i).is_zero() {
            out.push(state.positions.key_at(i).duplicate());
            proof {
                reveal_with_fuel(Seq::<_>::filter, 1);
                assert(e.take(i + 1).drop_last() =~= e.take(i as int));
                assert(pred(e[i as int]));
                assert(out@.map_values(|i: InstrumentId| i@) =~= prev.map_values(
                    |i: InstrumentId| i@,
                ).push(e[i as int].0));
            }
        } else {
            proof {
                reveal_with_fuel(Seq::<_>::filter, 1);
                assert(e.take(i + 1).drop_last() =~= e.take(i as int));
            }
        }
        i += 1;
    }
    proof {
        assert(state.positions.entries().take(n as int) =~= state.positions.entries());
    }
    out
}

/// The gateway call that places `intent`.
pub fn place_request_for(intent: OrderIntent) -> (r: GatewayRequest)
    ensures
        r == place_request(intent),
{
    match intent.order_type {
        OrderType::Limit => GatewayRequest::PlaceLimit(intent),
        OrderType::Market => GatewayRequest::PlaceMarket(intent),
    }
}

/// Applying `evs` to `before` passes through the states `sts` up to event `k`: each of the
/// first `k` events applies with success; when `k` is the end, `after` is the last state and
/// the answer `r` is `Ok`, otherwise event `k` fails, answering `r`, into `after`.
pub open spec fn events_applied_through(
    before: GlobalState,
    after: GlobalState,
    evs: Seq<AccountEvent>,
    r: Result<(), Error>,
    sts: Seq<GlobalState>,
    k: int,
) -> bool {
    &&& 0 <= k <= evs.len()
    &&& sts.len() == k + 1
    &&& sts[0] == before
    &&& forall|j: int|
        #![trigger sts[j], evs[j]]
        0 <= j < k ==> account_step(sts[j], sts[j + 1], evs[j], Ok(()))
    &&& if k == evs.len() {
        after == sts[k] && r is Ok
    } else {
        r is Err && account_step(sts[k], after, evs[k], r)
    }
}

/// `after` is `before` with the account events `evs` applied in order, stopping at the first
/// that fails; `r` is that failure, else `Ok`.
pub open spec fn account_events_applied(
    before: GlobalState,
    after: GlobalState,
    evs: Seq<AccountEvent>,
    r: Result<(), Error>,
) -> bool {
    exists|sts: Seq<GlobalState>, k: int| #[trigger]
        events_applied_through(before, after, evs, r, sts, k)
}

/// Apply account events in order; stops at the first that overflows.
fn apply_account_events(state: &mut GlobalState, evs: &Vec<AccountEvent>) -> (r: Result<
    (),
    Error,
>)
    requires
        old(state).wf(),
    ensures
        final(state).wf(),
        account_events_applied(*old(state), *final(state), evs@, r),
        final(state).paused == old(state).paused,
        final(state).instruments == old(state).instruments,
        final(state).daily_risk_quote == old(state).daily_risk_quote,
        final(state).risk_day_anchor == old(state).risk_day_anchor,
        same_market(*final(state), *old(state)),
        evs@.len() == 0 ==> *final(state) == *old(state) && r is Ok,
{
    let mut i: usize = 0;
    let ghost mut sts: Seq<GlobalState> = seq![*state];
    while i < evs.len()
        invariant
            i <= evs@.len(),
            state.wf(),
            sts.len() == i + 1,
            sts[0] == *old(state),
            sts[i as int] == *state,
            forall|j: int|
                #![trigger sts[j], evs@[j]]
                0 <= j < i ==> account_step(sts[j], sts[j + 1], evs@[j], Ok(())),
            state.paused == old(state).paused,
            state.instruments == old(state).instruments,
            state.daily_risk_quote == old(state).daily_risk_quote,
            state.risk_day_anchor == old(state).risk_day_anchor,
            same_market(*state, *old(state)),
            evs@.len() == 0 ==> *state == *old(state),
        decreases evs@.len() - i,
    {
        let ghost before = *state;
        let r = state.apply_account(&evs[i]);
        if r.is_err() {
            proof {
                assert(events_applied_through(*old(state), *state, evs@, r, sts, i as int));
            }
            return r;
        }
        proof {
            let prev = sts;
            sts = sts.push(*state);
            assert forall|j: int|
                #![trigger sts[j], evs@[j]]
                0 <= j < i + 1 implies account_step(sts[j], sts[j + 1], evs@[j], Ok(())) by {
                if j < i {
                    assert(prev[j] == sts[j] && prev[j + 1] == sts[j + 1]);
                    assert(account_step(prev[j], prev[j + 1], evs@[j], Ok(())));
                }
            }
        }
        i += 1;
    }
    proof {
        assert(events_applied_through(*old(state), *state, evs@, Ok(()), sts, i as int));
    }
    Ok(())
}

/// Some intent of `intents` at or after `from` passes the risk pipeline on `state`.
pub open spec fn some_passing<R: RiskCheck>(
    risk: &RiskPipeline<R>,
    state: &GlobalState,
    intents: Seq<OrderIntent>,
    from: int,
) -> bool {
    exists|k: int| from <= k < intents.len() && #[trigger] risk.verdict(state, &intents[k]) is Ok
}

/// Intent `k` is the first of `intents` at or after `from` that the risk pipeline passes.
pub open spec fn first_passing<R: RiskCheck>(
    risk: &RiskPipeline<R>,
    state: &GlobalState,
    intents: Seq<OrderIntent>,
    from: int,
    k: int,
) -> bool {
    &&& from <= k < intents.len()
    &&& risk.verdict(state, &intents[k]) is Ok
    &&& forall|j: int| from <= j < k ==> #[trigger] risk.verdict(state, &intents[j]) is Err
}

/// `inst` holds a position whose closing order the risk pipeline passes on `state`.
pub open spec fn flatten_candidate<R: RiskCheck>(
    risk: &RiskPipeline<R>,
    state: &GlobalState,
    inst: InstrumentId,
) -> bool {
    flatten_intent(state, inst) matches Some(i) && risk.verdict(state, &i) is Ok
}

/// Some instrument of `insts` at or after `from` is a flatten candidate.
pub open spec fn some_candidate<R: RiskCheck>(
    risk: &RiskPipeline<R>,
    state: &GlobalState,
    insts: Seq<InstrumentId>,
    from: int,
) -> bool {
    exists|k: int| from <= k < insts.len() && #[trigger] flatten_candidate(risk, state, insts[k])
}

/// Instrument `k` is the first flatten candidate of `insts` at or after `from`.
pub open spec fn first_candidate<R: RiskCheck>(
    risk: &RiskPipeline<R>,
    state: &GlobalState,
    insts: Seq<InstrumentId>,
    from: int,
    k: int,
) -> bool {
    &&& from <= k < insts.len()
    &&& flatten_candidate(risk, state, insts[k])
    &&& forall|j: int| from <= j < k ==> !#[trigger] flatten_candidate(risk, state, insts[j])
}

/// What the refresh of the daily anchor at `now`, then a stop while paused, does: the state
/// changes only in its anchor; a failing refresh ends the event with the overflow, and a
/// paused state ends it with success.
pub open spec fn after_event_effect(
    before: GlobalState,
    after: GlobalState,
    now: Timestamp,
    step: EngineStep,
) -> bool {
    &&& after.open_orders == before.open_orders
    &&& after.balances == before.balances
    &&& after.positions == before.positions
    &&& after.daily_risk_quote == before.daily_risk_quote
    &&& after.risk_day_anchor == before.refreshed_anchor(now)
    &&& before.refresh_fails(now) ==> (step matches EngineStep::Done(r) && overflowed(r))
    &&& !before.refresh_fails(now) && before.paused ==> step matches EngineStep::Done(Ok(()))
}

/// Processing `ev` from a state with pause flag `paused` needs neither the strategy nor the
/// gateway: a pause command, or a timer tick while paused.
pub open spec fn quiet_event(ev: Event, paused: bool) -> bool {
    ev == Event::Control(ControlEvent::Pause) || (ev is Timer && paused)
}

/// Every event of `events`, processed in order from pause flag `paused`, is quiet.
pub open spec fn quiet_batch(events: Seq<Event>, paused: bool) -> bool
    decreases events.len(),
{
    events.len() == 0 || (quiet_event(events[0], paused) && quiet_batch(
        events.drop_first(),
        paused_after(events[0], paused),
    ))
}

/// `after` differs from `before` at most in its pause flag and its daily anchor.
pub open spec fn only_pause_and_anchor(before: GlobalState, after: GlobalState) -> bool {
    &&& after.instruments == before.instruments
    &&& after.last_trade == before.last_trade
    &&& after.l1 == before.l1
    &&& after.l2 == before.l2
    &&& after.open_orders == before.open_orders
    &&& after.balances == before.balances
    &&& after.positions == before.positions
    &&& after.daily_risk_quote == before.daily_risk_quote
}

/// `state` with its daily anchor refreshed at `now`.
pub open spec fn refreshed(state: GlobalState, now: Timestamp) -> GlobalState {
    GlobalState { risk_day_anchor: state.refreshed_anchor(now), ..state }
}

/// The event ends in `state` with the result `r`.
pub open spec fn stopped(
    state: GlobalState,
    r: Result<(), Error>,
    phase: Phase,
    after: GlobalState,
    step: EngineStep,
) -> bool {
    &&& after == state
    &&& phase is Finished
    &&& step == EngineStep::Done(r)
}

/// `e` reports a request left without a reply.
pub open spec fn missing_reply_error(e: Error) -> bool {
    e matches Error::Invalid(m) && m@ == "missing gateway reply"@
}

/// A refused (or unanswered) poll or cancel-all ends the event with the gateway's error (or
/// the missing-reply error), the state unchanged.
pub open spec fn refused(
    before: GlobalState,
    reply: Option<Result<Vec<AccountEvent>, Error>>,
    phase: Phase,
    after: GlobalState,
    step: EngineStep,
) -> bool {
    &&& after == before
    &&& phase is Finished
    &&& match reply {
        Some(Err(e)) => step == EngineStep::Done(Err(e)),
        _ => step matches EngineStep::Done(Err(e)) && missing_reply_error(e),
    }
}

/// From `state`, the strategy's intents `intents` are considered from `from` on: the first
/// that the risk pipeline passes on `state` is requested, the cycle then waiting for its
/// reply; with none left, the event ends with success. The state does not change.
pub open spec fn intents_step<R: RiskCheck>(
    risk: &RiskPipeline<R>,
    state: GlobalState,
    intents: Seq<OrderIntent>,
    from: int,
    phase: Phase,
    step: EngineStep,
) -> bool {
    if some_passing(risk, &state, intents, from) {
        phase matches Phase::AwaitIntentFill { intents: v, next } && v@ == intents
            && first_passing(risk, &state, intents, from, next as int) && step
            == EngineStep::Request(place_request(intents[next as int]))
    } else {
        phase is Finished && step == EngineStep::Done(Ok(()))
    }
}

/// The end of an event's processing from `state`: the daily anchor is refreshed at `now`
/// (an overflow ends the event with that error, the state unchanged); then a paused engine
/// ends with success, and otherwise the strategy is asked for its intents on the refreshed
/// state.
pub open spec fn finishes<R: RiskCheck>(
    risk: &RiskPipeline<R>,
    state: GlobalState,
    now: Timestamp,
    phase: Phase,
    after: GlobalState,
    step: EngineStep,
) -> bool {
    if state.refresh_fails(now) {
        &&& after == state
        &&& phase is Finished
        &&& step matches EngineStep::Done(r) && overflowed(r)
    } else if state.paused {
        stopped(refreshed(state, now), Ok(()), phase, after, step)
    } else {
        &&& after == refreshed(state, now)
        &&& phase is AwaitStrategy
        &&& step == EngineStep::AskStrategy
    }
}

/// From `state`, the instruments `insts` are considered from `from` on: the first whose
/// closing market order the risk pipeline passes on `state` gets that order requested, the
/// cycle then waiting for its reply; with none left, the event ends as [`finishes`] says.
pub open spec fn flatten_step<R: RiskCheck>(
    risk: &RiskPipeline<R>,
    state: GlobalState,
    insts: Seq<InstrumentId>,
    from: int,
    now: Timestamp,
    phase: Phase,
    after: GlobalState,
    step: EngineStep,
) -> bool {
    if some_candidate(risk, &state, insts, from) {
        &&& after == state
        &&& phase matches Phase::AwaitFlattenFill { insts: v, next } && v@ == insts
            && first_candidate(risk, &state, insts, from, next as int) && step
            == EngineStep::Request(
            GatewayRequest::PlaceMarket(flatten_intent(&state, insts[next as int])->0),
        )
    } else {
        finishes(risk, state, now, phase, after, step)
    }
}

/// After the account events of a cancel-all, the flatten orders: the instruments with a
/// nonzero position, in storage order, are considered from the first on.
pub open spec fn flatten_from<R: RiskCheck>(
    risk: &RiskPipeline<R>,
    state: GlobalState,
    now: Timestamp,
    phase: Phase,
    after: GlobalState,
    step: EngineStep,
) -> bool {
    exists|insts: Seq<InstrumentId>|
        insts.map_values(|i: InstrumentId| i@) == nonzero_position_keys(&state) && #[trigger] flatten_step(
            risk,
            state,
            insts,
            0,
            now,
            phase,
            after,
            step,
        )
}

/// The first step of processing `event` from `before`: a market event updates the book and
/// asks for the passive fills; an account event is applied (its failure ends the event);
/// `Pause` and `Resume` set the pause flag; `CancelAll` and `Flatten` ask to cancel every
/// working order; then, for all but the requests, the event ends as [`finishes`] says.
pub open spec fn start_step<R: RiskCheck>(
    risk: &RiskPipeline<R>,
    event: Event,
    now: Timestamp,
    before: GlobalState,
    phase: Phase,
    after: GlobalState,
    step: EngineStep,
) -> bool {
    match event {
        Event::Market(m) => {
            &&& market_applied(before, after, m)
            &&& after == GlobalState {
                last_trade: after.last_trade,
                l1: after.l1,
                l2: after.l2,
                ..before
            }
            &&& phase is AwaitPoll
            &&& step == EngineStep::Request(GatewayRequest::PollAfterMarket)
        },
        Event::Account(a) => exists|mid: GlobalState, r: Result<(), Error>|
            #[trigger] account_step(before, mid, a, r) && (r is Err ==> stopped(
                mid,
                r,
                phase,
                after,
                step,
            )) && (r is Ok ==> finishes(risk, mid, now, phase, after, step)),
        Event::Control(ControlEvent::Pause) => finishes(
            risk,
            GlobalState { paused: true, ..before },
            now,
            phase,
            after,
            step,
        ),
        Event::Control(ControlEvent::Resume) => finishes(
            risk,
            GlobalState { paused: false, ..before },
            now,
            phase,
            after,
            step,
        ),
        Event::Control(ControlEvent::CancelAll) => {
            &&& after == before
            &&& phase == Phase::AwaitCancelAll { then_flatten: false }
            &&& step == EngineStep::Request(GatewayRequest::CancelAll)
        },
        Event::Control(ControlEvent::Flatten) => {
            &&& after == before
            &&& phase == Phase::AwaitCancelAll { then_flatten: true }
            &&& step == EngineStep::Request(GatewayRequest::CancelAll)
        },
        Event::Timer(_) => finishes(risk, before, now, phase, after, step),
    }
}

/// One step of processing `event` at engine time `now`, from `phase` and `before`, with the
/// gateway's `reply` to the previous request or the intents `given` by the strategy when it
/// was asked, into `phase2` and `after`, taking `step`. The given intents are considered in
/// order from the first ([`intents_step`]).
/// The account events of a reply are applied in order (a failure ends the event); after a
/// poll the event ends as [`finishes`] says, after a cancel-all likewise or, for a flatten
/// command, with the flatten orders ([`flatten_from`]); after the reply to a flatten order
/// or to a strategy order the next one is considered, also where the gateway refused the
/// order. A refused poll or cancel-all ends the event with the gateway's error.
#[verifier::opaque]
pub open spec fn advance_step<R: RiskCheck>(
    risk: &RiskPipeline<R>,
    event: Event,
    now: Timestamp,
    phase: Phase,
    before: GlobalState,
    reply: Option<Result<Vec<AccountEvent>, Error>>,
    given: Seq<OrderIntent>,
    phase2: Phase,
    after: GlobalState,
    step: EngineStep,
) -> bool {
    match phase {
        Phase::Start => start_step(risk, event, now, before, phase2, after, step),
        Phase::AwaitPoll => match reply {
            Some(Ok(evs)) => exists|mid: GlobalState, r: Result<(), Error>|
                #[trigger] account_events_applied(before, mid, evs@, r) && (r is Err ==> stopped(
                    mid,
                    r,
                    phase2,
                    after,
                    step,
                )) && (r is Ok ==> finishes(risk, mid, now, phase2, after, step)),
            _ => refused(before, reply, phase2, after, step),
        },
        Phase::AwaitCancelAll { then_flatten } => match reply {
            Some(Ok(evs)) => exists|mid: GlobalState, r: Result<(), Error>|
                #[trigger] account_events_applied(before, mid, evs@, r) && (r is Err ==> stopped(
                    mid,
                    r,
                    phase2,
                    after,
                    step,
                )) && (r is Ok ==> if then_flatten {
                    flatten_from(risk, mid, now, phase2, after, step)
                } else {
                    finishes(risk, mid, now, phase2, after, step)
                }),
            _ => refused(before, reply, phase2, after, step),
        },
        Phase::AwaitFlattenFill { insts, next } => match reply {
            Some(Ok(evs)) => exists|mid: GlobalState, r: Result<(), Error>|
                #[trigger] account_events_applied(before, mid, evs@, r) && (r is Err ==> stopped(
                    mid,
                    r,
                    phase2,
                    after,
                    step,
                )) && (r is Ok ==> flatten_step(
                    risk,
                    mid,
                    insts@,
                    next + 1,
                    now,
                    phase2,
                    after,
                    step,
                )),
            _ => flatten_step(risk, before, insts@, next + 1, now, phase2, after, step),
        },
        Phase::AwaitIntentFill { intents, next } => match reply {
            Some(Ok(evs)) => exists|mid: GlobalState, r: Result<(), Error>|
                #[trigger] account_events_applied(before, mid, evs@, r) && (r is Err ==> stopped(
                    mid,
                    r,
                    phase2,
                    after,
                    step,
                )) && (r is Ok ==> after == mid && intents_step(
                    risk,
                    mid,
                    intents@,
                    next + 1,
                    phase2,
                    step,
                )),
            _ => after == before && intents_step(risk, before, intents@, next + 1, phase2, step),
        },
        Phase::AwaitStrategy => after == before && intents_step(risk, before, given, 0, phase2, step),
        Phase::Finished => stopped(before, Ok(()), phase2, after, step),
    }
}

/// The strategy has not been asked yet.
pub open spec fn before_strategy(phase: Phase) -> bool {
    !(phase is AwaitStrategy) && !(phase is AwaitIntentFill) && !(phase is Finished)
}

/// The processing of one event.
#[derive(Debug)]
pub struct EventCycle {
    event: Event,
    now: Timestamp,
    phase: Phase,
}

impl EventCycle {
    /// Where the processing stands.
    pub closed spec fn phase(&self) -> Phase {
        self.phase
    }

    /// The event being processed.
    pub closed spec fn event(&self) -> Event {
        self.event
    }

    /// The engine time of the event.
    pub closed spec fn now(&self) -> Timestamp {
        self.now
    }

    /// The cycle waits for the reply to a flatten order.
    pub closed spec fn in_flatten(&self) -> bool {
        self.phase is AwaitFlattenFill
    }

    /// The cycle has finished.
    pub closed spec fn finished(&self) -> bool {
        self.phase is Finished
    }

    /// The cycle has not begun.
    pub closed spec fn at_start(&self) -> bool {
        self.phase is Start
    }

    /// Stage of the processing, falling at each step: 5 before the start, 4 while a poll or
    /// cancel-all is answered, 3 while flatten orders are placed, 2 while the strategy is
    /// asked, 1 while the strategy's orders are placed, 0 when finished.
    pub closed spec fn rank(&self) -> nat {
        match self.phase {
            Phase::Start => 5,
            Phase::AwaitPoll => 4,
            Phase::AwaitCancelAll { .. } => 4,
            Phase::AwaitFlattenFill { .. } => 3,
            Phase::AwaitStrategy => 2,
            Phase::AwaitIntentFill { .. } => 1,
            Phase::Finished => 0,
        }
    }

    /// Orders still to consider at the current stage.
    pub closed spec fn count(&self) -> nat {
        match self.phase {
            Phase::AwaitFlattenFill { insts, next } => (insts@.len() - next) as nat,
            Phase::AwaitIntentFill { intents, next } => (intents@.len() - next) as nat,
            _ => 0,
        }
    }

    /// Facts that hold between steps: the strategy's orders are only placed while trading is
    /// not paused.
    pub closed spec fn inv(&self, state: &GlobalState) -> bool {
        &&& state.wf()
        &&& match self.phase {
            Phase::AwaitIntentFill { intents, next } => !state.paused && next < intents@.len(),
            Phase::AwaitStrategy => !state.paused,
            Phase::AwaitFlattenFill { insts, next } => next < insts@.len(),
            _ => true,
        }
    }

    /// The engine time of the event.
    pub fn engine_time(&self) -> (r: Timestamp)
        ensures
            r == self.now(),
    {
        self.now
    }

    /// The event being processed.
    pub fn current_event(&self) -> (r: &Event)
        ensures
            *r == self.event(),
    {
        &self.event
    }

    /// Begin processing `event`. The engine time is the event's own time for market events and
    /// timer ticks, and the current time otherwise.
    pub fn new(event: Event) -> (r: Self)
        ensures
            r.event() == event,
            r.at_start(),
            event_timestamp(event) matches Some(t) ==> r.now() == t,
            event_timestamp(event) is None ==> r.now().offset() == 0,
    {
        let now = match event.timestamp() {
            Some(t) => t,
            None => now_utc(),
        };
        EventCycle { event, now, phase: Phase::Start }
    }

    /// Take the next step. `reply` is the gateway's answer to the previous request; `given` is
    /// what the strategy returned when the previous step asked it (else it is not read).
    ///
    /// A market event updates the book and asks for passive fills; an account event updates
    /// the state; `Pause`/`Resume` set the pause flag; `CancelAll` asks to cancel everything;
    /// `Flatten` cancels everything and then places, for each nonzero position, the market
    /// order that closes it (when the risk pipeline allows). Then the daily anchor is
    /// refreshed and, unless trading is paused, the strategy is asked for its intents, which
    /// are then placed one by one in order, each only when the risk pipeline passes it on the
    /// current state.
    pub fn advance<R: RiskCheck>(
        &mut self,
        state: &mut GlobalState,
        risk: &RiskPipeline<R>,
        reply: Option<Result<Vec<AccountEvent>, Error>>,
        given: Vec<OrderIntent>,
    ) -> (step: EngineStep)
        requires
            old(self).inv(&*old(state)),
        ensures
            advance_step(
                risk,
                old(self).event(),
                old(self).now(),
                old(self).phase(),
                *old(state),
                reply,
                given@,
                final(self).phase(),
                *final(state),
                step,
            ),
            final(self).inv(&*final(state)),
            final(self).event() == old(self).event(),
            final(self).now() == old(self).now(),
            final(state).instruments == old(state).instruments,
            !old(self).at_start() ==> final(state).paused == old(state).paused,
            old(self).at_start() ==> final(state).paused == match old(self).event() {
                Event::Control(ControlEvent::Pause) => true,
                Event::Control(ControlEvent::Resume) => false,
                _ => old(state).paused,
            },
            step matches EngineStep::Request(GatewayRequest::PollAfterMarket) ==> old(
                self,
            ).at_start() && old(self).event() is Market,
            step matches EngineStep::Request(GatewayRequest::CancelAll) ==> old(self).at_start()
                && (old(self).event() == Event::Control(ControlEvent::CancelAll) || old(self).event()
                == Event::Control(ControlEvent::Flatten)),
            step matches EngineStep::Request(GatewayRequest::PlaceLimit(i)) ==> {
                &&& i.order_type == OrderType::Limit
                &&& !final(self).in_flatten()
                &&& !final(state).paused
                &&& risk.verdict(&*final(state), &i) is Ok
            },
            step matches EngineStep::Request(GatewayRequest::PlaceMarket(i)) ==> {
                &&& i.order_type == OrderType::Market
                &&& risk.verdict(&*final(state), &i) is Ok
                &&& final(self).in_flatten() ==> flatten_intent(&*final(state), i.instrument)
                    == Some(i)
                &&& !final(self).in_flatten() ==> !final(state).paused
            },
            step is Done <==> final(self).finished(),
            old(self).finished() ==> step matches EngineStep::Done(Ok(())),
            !final(self).at_start(),
            old(self).at_start() && quiet_event(old(self).event(), old(state).paused)
                && old(state).anchor_refresh_safe() ==> (step matches EngineStep::Done(Ok(()))
                && only_pause_and_anchor(*old(state), *final(state))),
            !old(self).at_start() ==> same_market(*final(state), *old(state)),
            old(self).at_start() ==> match old(self).event() {
                Event::Market(m) => market_applied(*old(state), *final(state), m),
                _ => same_market(*final(state), *old(state)),
            },
            old(self).phase() is AwaitStrategy ==> (final(self).phase() matches Phase::AwaitIntentFill { intents, .. } ==> intents@
                == given@),
            step is AskStrategy ==> final(self).phase() is AwaitStrategy && !final(state).paused,
            !before_strategy(old(self).phase()) ==> !before_strategy(final(self).phase()) && !(step is AskStrategy),
            old(self).at_start() && old(state).paused && old(self).event() is Account ==> (step matches EngineStep::Done(r)
                && exists|mid: GlobalState, ra: Result<(), Error>|
                #[trigger] account_then_refresh(
                *old(state),
                old(self).event()->Account_0,
                mid,
                ra,
                old(self).now(),
                *final(state),
                r,
            )),
            !(step is Done) ==> final(self).rank() < old(self).rank() || (final(self).rank()
                == old(self).rank() && final(self).count() < old(self).count()),
    {
        let mut phase = Phase::Finished;
        std::mem::swap(&mut phase, &mut self.phase);
        proof {
            reveal(advance_step);
            assert(phase == old(self).phase);
        }
        match phase {
            Phase::Start => {
                let step = self.start(state, risk);
                proof {
                    if old(state).paused && self.event is Account {
                        let a = self.event->Account_0;
                        let (mid, ra) = choose|mid: GlobalState, ra: Result<(), Error>|
                            #[trigger] account_step(*old(state), mid, a, ra) && (ra is Err
                                ==> stopped(mid, ra, self.phase, *state, step)) && (ra is Ok
                                ==> finishes(risk, mid, self.now, self.phase, *state, step));
                        if step is Done {
                            assert(account_then_refresh(
                                *old(state),
                                a,
                                mid,
                                ra,
                                self.now,
                                *state,
                                step->Done_0,
                            ));
                        }
                    }
                }
                step
            },
            Phase::AwaitPoll => match reply {
                Some(Ok(evs)) => match apply_account_events(state, &evs) {
                    Ok(()) => self.after_event(state, risk),
                    Err(e) => EngineStep::Done(Err(e)),
                },
                Some(Err(e)) => EngineStep::Done(Err(e)),
                None => EngineStep::Done(Err(missing_reply())),
            },
            Phase::AwaitCancelAll { then_flatten } => match reply {
                Some(Ok(evs)) => match apply_account_events(state, &evs) {
                    Ok(()) => if then_flatten {
                        let insts = flatten_instruments(state);
                        self.continue_flatten(state, risk, insts, 0)
                    } else {
                        self.after_event(state, risk)
                    },
                    Err(e) => EngineStep::Done(Err(e)),
                },
                Some(Err(e)) => EngineStep::Done(Err(e)),
                None => EngineStep::Done(Err(missing_reply())),
            },
            Phase::AwaitFlattenFill { insts, next } => {
                let count = insts.len();
                assert(next < count);
                match reply {
                    Some(Ok(evs)) => match apply_account_events(state, &evs) {
                        Ok(()) => {},
                        Err(e) => {
                            return EngineStep::Done(Err(e));
                        },
                    },
                    _ => {},
                }
                self.continue_flatten(state, risk, insts, next + 1)
            },
            Phase::AwaitIntentFill { intents, next } => {
                let count = intents.len();
                assert(next < count);
                match reply {
                    Some(Ok(evs)) => match apply_account_events(state, &evs) {
                        Ok(()) => {},
                        Err(e) => {
                            return EngineStep::Done(Err(e));
                        },
                    },
                    _ => {},
                }
                self.continue_intents(state, risk, intents, next + 1)
            },
            Phase::AwaitStrategy => self.continue_intents(state, risk, given, 0),
            Phase::Finished => EngineStep::Done(Ok(())),
        }
    }

    fn start<R: RiskCheck>(
        &mut self,
        state: &mut GlobalState,
        risk: &RiskPipeline<R>,
    ) -> (step: EngineStep)
        requires
            old(state).wf(),
            old(self).phase is Finished,
        ensures
            start_step(
                risk,
                old(self).event(),
                old(self).now(),
                *old(state),
                final(self).phase,
                *final(state),
                step,
            ),
            final(self).inv(&*final(state)),
            final(self).event() == old(self).event(),
            final(self).now() == old(self).now(),
            final(state).instruments == old(state).instruments,
            final(state).paused == match old(self).event() {
                Event::Control(ControlEvent::Pause) => true,
                Event::Control(ControlEvent::Resume) => false,
                _ => old(state).paused,
            },
            final(self).rank() <= 4,
            match old(self).event() {
                Event::Market(m) => market_applied(*old(state), *final(state), m),
                _ => same_market(*final(state), *old(state)),
            },
            quiet_event(old(self).event(), old(state).paused) && old(state).anchor_refresh_safe()
                ==> (step matches EngineStep::Done(Ok(())) && only_pause_and_anchor(
                *old(state),
                *final(state),
            )),
            step matches EngineStep::Request(GatewayRequest::PollAfterMarket) ==> old(self).event() is Market,
            step matches EngineStep::Request(GatewayRequest::CancelAll) ==> (old(self).event()
                == Event::Control(ControlEvent::CancelAll) || old(self).event() == Event::Control(
                ControlEvent::Flatten,
            )),
            step matches EngineStep::Request(GatewayRequest::PlaceLimit(i)) ==> {
                &&& i.order_type == OrderType::Limit
                &&& !final(self).in_flatten()
                &&& !final(state).paused
                &&& risk.verdict(&*final(state), &i) is Ok
            },
            step matches EngineStep::Request(GatewayRequest::PlaceMarket(i)) ==> {
                &&& i.order_type == OrderType::Market
                &&& risk.verdict(&*final(state), &i) is Ok
                &&& final(self).in_flatten() ==> flatten_intent(&*final(state), i.instrument)
                    == Some(i)
                &&& !final(self).in_flatten() ==> !final(state).paused
            },
            step is Done <==> final(self).finished(),
    {
        match &self.event {
            Event::Market(m) => {
                state.apply_market(m);
                self.phase = Phase::AwaitPoll;
                EngineStep::Request(GatewayRequest::PollAfterMarket)
            },
            Event::Account(a) => match state.apply_account(a) {
                Ok(()) => self.after_event(state, risk),
                Err(e) => EngineStep::Done(Err(e)),
            },
            Event::Control(ControlEvent::Pause) => {
                state.paused = true;
                proof {
                    match old(state).daily_risk_quote {
                        Some(q) => state.lemma_equity_same_holdings(&*old(state), q@),
                        None => {},
                    }
                }
                self.after_event(state, risk)
            },
            Event::Control(ControlEvent::Resume) => {
                state.paused = false;
                self.after_event(state, risk)
            },
            Event::Control(ControlEvent::CancelAll) => {
                self.phase = Phase::AwaitCancelAll { then_flatten: false };
                EngineStep::Request(GatewayRequest::CancelAll)
            },
            Event::Control(ControlEvent::Flatten) => {
                self.phase = Phase::AwaitCancelAll { then_flatten: true };
                EngineStep::Request(GatewayRequest::CancelAll)
            },
            Event::Timer(_) => self.after_event(state, risk),
        }
    }

    fn continue_flatten<R: RiskCheck>(
        &mut self,
        state: &mut GlobalState,
        risk: &RiskPipeline<R>,
        insts: Vec<InstrumentId>,
        from: usize,
    ) -> (step: EngineStep)
        requires
            old(state).wf(),
            old(self).phase is Finished,
        ensures
            flatten_step(
                risk,
                *old(state),
                insts@,
                from as int,
                old(self).now(),
                final(self).phase,
                *final(state),
                step,
            ),
            final(self).inv(&*final(state)),
            final(self).event() == old(self).event(),
            final(self).now() == old(self).now(),
            final(state).instruments == old(state).instruments,
            final(state).paused == old(state).paused,
            !(step matches EngineStep::Request(GatewayRequest::PollAfterMarket)),
            !(step matches EngineStep::Request(GatewayRequest::CancelAll)),
            final(self).rank() <= 3,
            same_market(*final(state), *old(state)),
            final(self).phase matches Phase::AwaitFlattenFill { insts: i2, next: n2 } ==> i2
                == insts && n2 >= from,
            some_candidate(risk, &*old(state), insts@, from as int) ==> {
                &&& final(self).phase matches Phase::AwaitFlattenFill { next: n, .. }
                    && first_candidate(risk, &*old(state), insts@, from as int, n as int)
                    && step == EngineStep::Request(
                    GatewayRequest::PlaceMarket(flatten_intent(&*old(state), insts@[n as int])->0),
                )
                &&& *final(state) == *old(state)
            },
            !some_candidate(risk, &*old(state), insts@, from as int) ==> after_event_effect(
                *old(state),
                *final(state),
                old(self).now(),
                step,
            ),
            step matches EngineStep::Request(GatewayRequest::PlaceLimit(i)) ==> {
                &&& i.order_type == OrderType::Limit
                &&& !final(self).in_flatten()
                &&& !final(state).paused
                &&& risk.verdict(&*final(state), &i) is Ok
            },
            step matches EngineStep::Request(GatewayRequest::PlaceMarket(i)) ==> {
                &&& i.order_type == OrderType::Market
                &&& risk.verdict(&*final(state), &i) is Ok
                &&& final(self).in_flatten() ==> flatten_intent(&*final(state), i.instrument)
                    == Some(i)
                &&& !final(self).in_flatten() ==> !final(state).paused
            },
            step is Done <==> final(self).finished(),
    {
        let mut k = from;
        while k < insts.len()
            invariant
                k >= from,
                state.wf(),
                state == old(state),
                self.phase is Finished,
                self.event == old(self).event,
                self.now == old(self).now,
                forall|j: int|
                    from <= j < k ==> !#[trigger] flatten_candidate(risk, &*state, insts@[j]),
            decreases insts@.len() - k,
        {
            match flatten_intent_for(state, &insts[k]) {
                Some(intent) => {
                    if risk.validate(state, &intent).is_ok() {
                        proof {
                            assert(flatten_candidate(risk, &*state, insts@[k as int]));
                        }
                        self.phase = Phase::AwaitFlattenFill { insts, next: k };
                        return EngineStep::Request(GatewayRequest::PlaceMarket(intent));
                    }
                },
                None => {},
            }
            k += 1;
        }
        proof {
            assert(!some_candidate(risk, &*state, insts@, from as int));
        }
        self.after_event(state, risk)
    }

    fn after_event<R: RiskCheck>(
        &mut self,
        state: &mut GlobalState,
        risk: &RiskPipeline<R>,
    ) -> (step: EngineStep)
        requires
            old(state).wf(),
            old(self).phase is Finished,
        ensures
            finishes(risk, *old(state), old(self).now(), final(self).phase, *final(state), step),
            final(self).inv(&*final(state)),
            final(self).event() == old(self).event(),
            final(self).now() == old(self).now(),
            final(state).instruments == old(state).instruments,
            final(state).paused == old(state).paused,
            !(step matches EngineStep::Request(GatewayRequest::PollAfterMarket)),
            !(step matches EngineStep::Request(GatewayRequest::CancelAll)),
            !final(self).in_flatten(),
            final(self).rank() <= 2,
            same_market(*final(state), *old(state)),
            step matches EngineStep::Request(GatewayRequest::PlaceLimit(i)) ==> {
                &&& i.order_type == OrderType::Limit
                &&& !final(state).paused
                &&& risk.verdict(&*final(state), &i) is Ok
            },
            step matches EngineStep::Request(GatewayRequest::PlaceMarket(i)) ==> {
                &&& i.order_type == OrderType::Market
                &&& !final(state).paused
                &&& risk.verdict(&*final(state), &i) is Ok
            },
            step is Done <==> final(self).finished(),
            old(state).paused ==> step is Done,
            after_event_effect(*old(state), *final(state), old(self).now(), step),
    {
        match state.refresh_daily_risk_anchor(self.now) {
            Ok(()) => {},
            Err(e) => {
                return EngineStep::Done(Err(e));
            },
        }
        if state.paused {
            return EngineStep::Done(Ok(()));
        }
        self.phase = Phase::AwaitStrategy;
        EngineStep::AskStrategy
    }

    fn continue_intents<R: RiskCheck>(
        &mut self,
        state: &mut GlobalState,
        risk: &RiskPipeline<R>,
        intents: Vec<OrderIntent>,
        from: usize,
    ) -> (step: EngineStep)
        requires
            old(state).wf(),
            !old(state).paused,
            old(self).phase is Finished,
        ensures
            intents_step(risk, *old(state), intents@, from as int, final(self).phase, step),
            final(self).inv(&*final(state)),
            final(self).event() == old(self).event(),
            final(self).now() == old(self).now(),
            *final(state) == *old(state),
            !(step matches EngineStep::Request(GatewayRequest::PollAfterMarket)),
            !(step matches EngineStep::Request(GatewayRequest::CancelAll)),
            !final(self).in_flatten(),
            final(self).rank() <= 1,
            final(self).phase matches Phase::AwaitIntentFill { intents: i2, next: n2 } ==> i2
                == intents && n2 >= from,
            some_passing(risk, &*old(state), intents@, from as int) ==> (final(self).phase matches Phase::AwaitIntentFill { next: n, .. }
                && first_passing(risk, &*old(state), intents@, from as int, n as int) && step
                == EngineStep::Request(place_request(intents@[n as int]))),
            !some_passing(risk, &*old(state), intents@, from as int) ==> step matches EngineStep::Done(
                Ok(()),
            ),
            step matches EngineStep::Request(GatewayRequest::PlaceLimit(i)) ==> {
                &&& i.order_type == OrderType::Limit
                &&& risk.verdict(&*final(state), &i) is Ok
            },
            step matches EngineStep::Request(GatewayRequest::PlaceMarket(i)) ==> {
                &&& i.order_type == OrderType::Market
                &&& risk.verdict(&*final(state), &i) is Ok
            },
            step is Done <==> final(self).finished(),
    {
        let mut k = from;
        while k < intents.len()
            invariant
                k >= from,
                state.wf(),
                !state.paused,
                state == old(state),
                self.phase is Finished,
                self.event == old(self).event,
                self.now == old(self).now,
                forall|j: int| from <= j < k ==> #[trigger] risk.verdict(&*state, &intents@[j]) is Err,
            decreases intents@.len() - k,
        {
            let intent = intents[k].duplicate();
            if risk.validate(state, &intent).is_ok() {
                self.phase = Phase::AwaitIntentFill { intents, next: k };
                return EngineStep::Request(place_request_for(intent));
            }
            k += 1;
        }
        proof {
            assert(!some_passing(risk, &*state, intents@, from as int));
        }
        EngineStep::Done(Ok(()))
    }
}

/// The pause flag after processing `ev` from a state with flag `paused`.
pub open spec fn paused_after(ev: Event, paused: bool) -> bool {
    match ev {
        Event::Control(ControlEvent::Pause) => true,
        Event::Control(ControlEvent::Resume) => false,
        _ => paused,
    }
}

/// After `step`, made on `state`, the next step is fed `reply` and `given`: for a request,
/// the gateway's answer to it; when the strategy was asked, no reply, and the intents that
/// the strategy `strat` decides for `ev` at engine time `now` on `state`.
pub open spec fn answered<S: Strategy, G: LocalGateway>(
    exec: &G,
    strat: S,
    ev: Event,
    now: Timestamp,
    state: GlobalState,
    step: EngineStep,
    reply: Option<Result<Vec<AccountEvent>, Error>>,
    given: Seq<OrderIntent>,
) -> bool {
    match step {
        EngineStep::Request(req) => reply matches Some(a) && exec.answers(state, req, a),
        EngineStep::AskStrategy => reply is None && given == strat.decision(now, state, ev),
        EngineStep::Done(_) => false,
    }
}

/// The steps `steps` of processing `ev` at engine time `now`, from the start: step `j` goes
/// from `phases[j]` and `states[j]`, with reply `replies[j]` and intents `givens[j]`, to
/// `phases[j + 1]` and `states[j + 1]` as [`advance_step`] says; every step but the last is
/// a request that `exec` answers on the state it is made on, the answer being the next reply,
/// or asks the strategy `strat` (as it stands when the event begins), whose decision on the
/// state it is asked on gives the next intents; the last step ends the event. The strategy
/// is then `strat_after`: as the strategy updates itself when asked, or `strat` where it was
/// not asked.
pub open spec fn cycle_run<S: Strategy, R: RiskCheck, G: LocalGateway>(
    risk: &RiskPipeline<R>,
    strat: S,
    strat_after: S,
    exec: &G,
    ev: Event,
    now: Timestamp,
    states: Seq<GlobalState>,
    phases: Seq<Phase>,
    replies: Seq<Option<Result<Vec<AccountEvent>, Error>>>,
    givens: Seq<Seq<OrderIntent>>,
    steps: Seq<EngineStep>,
) -> bool {
    let n = steps.len();
    &&& n >= 1
    &&& states.len() == n + 1
    &&& phases.len() == n + 1
    &&& replies.len() == n
    &&& givens.len() == n
    &&& phases[0] == Phase::Start
    &&& replies[0] is None
    &&& forall|j: int|
        #![trigger steps[j]]
        0 <= j < n ==> advance_step(
            risk,
            ev,
            now,
            phases[j],
            states[j],
            replies[j],
            givens[j],
            phases[j + 1],
            states[j + 1],
            steps[j],
        )
    &&& forall|j: int|
        #![trigger replies[j]]
        0 < j < n ==> answered(
            exec,
            strat,
            ev,
            now,
            states[j],
            steps[j - 1],
            replies[j],
            givens[j],
        )
    &&& forall|j: int|
        #![trigger steps[j]]
        0 <= j < n && steps[j] is AskStrategy ==> strat_after == strat.updated(
            now,
            states[j + 1],
            ev,
        )
    &&& !(exists|j: int| 0 <= j < n && #[trigger] steps[j] is AskStrategy) ==> strat_after == strat
    &&& steps[n - 1] is Done
}

/// Processing `ev` from `before` with the strategy `strat` and the gateway `exec` ends in
/// `after` with the result `r`, the strategy then being `strat_after`: some run of steps at
/// the event's engine time (its own time, where it has one) does so.
pub open spec fn processes<S: Strategy, R: RiskCheck, G: LocalGateway>(
    risk: &RiskPipeline<R>,
    strat: S,
    strat_after: S,
    exec: &G,
    ev: Event,
    before: GlobalState,
    after: GlobalState,
    r: Result<(), Error>,
) -> bool {
    exists|
        now: Timestamp,
        states: Seq<GlobalState>,
        phases: Seq<Phase>,
        replies: Seq<Option<Result<Vec<AccountEvent>, Error>>>,
        givens: Seq<Seq<OrderIntent>>,
        steps: Seq<EngineStep>,
    |
        #[trigger] cycle_run(
            risk,
            strat,
            strat_after,
            exec,
            ev,
            now,
            states,
            phases,
            replies,
            givens,
            steps,
        ) && (event_timestamp(
            ev,
        ) matches Some(t) ==> now == t) && states[0] == before && states.last() == after
            && steps.last() == EngineStep::Done(r)
}

/// `after` and `r` are what applying the account event `a` to `before` (into `mid`,
/// answering `ra`) and then refreshing the daily anchor at `now` give: a failed application
/// ends there; a failed refresh reports the overflow, the state kept; else success, with the
/// anchor refreshed.
pub open spec fn account_then_refresh(
    before: GlobalState,
    a: AccountEvent,
    mid: GlobalState,
    ra: Result<(), Error>,
    now: Timestamp,
    after: GlobalState,
    r: Result<(), Error>,
) -> bool {
    &&& account_step(before, mid, a, ra)
    &&& if ra is Err {
        after == mid && r == ra
    } else if mid.refresh_fails(now) {
        after == mid && overflowed(r)
    } else {
        after == refreshed(mid, now) && r is Ok
    }
}

/// Process a single event (market/account/control/timer) through strategy, risk and a local
/// execution gateway: each request of the [`EventCycle`] is answered by `exec`, and when the
/// cycle asks the strategy, `strategy.on_event` is called with the engine time and the current
/// state and what it returns is handed back, so the event is processed as [`processes`] says. While paused, an account event is applied and the daily
/// anchor refreshed, with nothing else done.
pub fn dispatch_event<S: Strategy, R: RiskCheck, G: LocalGateway>(
    state: &mut GlobalState,
    strategy: &mut S,
    risk: &RiskPipeline<R>,
    exec: &G,
    ev: Event,
) -> (r: Result<(), Error>)
    requires
        old(state).wf(),
    ensures
        processes(risk, *old(strategy), *final(strategy), exec, ev, *old(state), *final(state), r),
        old(state).paused && ev is Account ==> exists|
            mid: GlobalState,
            ra: Result<(), Error>,
            now: Timestamp,
        | #[trigger] account_then_refresh(*old(state), ev->Account_0, mid, ra, now, *final(state), r),
        final(state).wf(),
        final(state).instruments == old(state).instruments,
        final(state).paused == paused_after(ev, old(state).paused),
        match ev {
            Event::Market(m) => market_applied(*old(state), *final(state), m),
            _ => same_market(*final(state), *old(state)),
        },
        quiet_event(ev, old(state).paused) && old(state).anchor_refresh_safe() ==> r is Ok
            && only_pause_and_anchor(*old(state), *final(state)),
{
    let ghost event = ev;
    let ghost paused0 = state.paused;
    let mut cycle = EventCycle::new(ev);
    let ghost now = cycle.now();
    let ghost strat0 = *strategy;
    let ghost mut asked = false;
    let ghost mut ask_state = *state;
    let ghost mut ask_index: int = 0;
    let mut reply: Option<Result<Vec<AccountEvent>, Error>> = None;
    let ghost mut states: Seq<GlobalState> = seq![*state];
    let ghost mut phases: Seq<Phase> = seq![cycle.phase()];
    let ghost mut replies: Seq<Option<Result<Vec<AccountEvent>, Error>>> = seq![reply];
    let mut given: Vec<OrderIntent> = Vec::new();
    let ghost mut givens: Seq<Seq<OrderIntent>> = seq![given@];
    let ghost mut steps: Seq<EngineStep> = Seq::empty();
    loop
        invariant
            cycle.inv(&*state),
            cycle.event() == event,
            cycle.now() == now,
            event_timestamp(event) matches Some(t) ==> now == t,
            state.instruments == old(state).instruments,
            paused0 == old(state).paused,
            event == ev,
            cycle.at_start() ==> state.paused == paused0,
            !cycle.at_start() ==> state.paused == paused_after(event, paused0),
            cycle.at_start() ==> *state == *old(state),
            quiet_event(event, paused0) && old(state).anchor_refresh_safe() ==> cycle.at_start(),
            !cycle.at_start() ==> match event {
                Event::Market(m) => market_applied(*old(state), *state, m),
                _ => same_market(*state, *old(state)),
            },
            states.len() == steps.len() + 1,
            phases.len() == steps.len() + 1,
            replies.len() == steps.len() + 1,
            givens.len() == steps.len() + 1,
            givens.last() == given@,
            states[0] == *old(state),
            phases[0] == Phase::Start,
            replies[0] is None,
            states.last() == *state,
            phases.last() == cycle.phase(),
            replies.last() == reply,
            forall|j: int|
                #![trigger steps[j]]
                0 <= j < steps.len() ==> advance_step(
                    risk,
                    ev,
                    now,
                    phases[j],
                    states[j],
                    replies[j],
                    givens[j],
                    phases[j + 1],
                    states[j + 1],
                    steps[j],
                ),
            forall|j: int|
                #![trigger replies[j]]
                0 < j <= steps.len() ==> answered(
                    exec,
                    strat0,
                    ev,
                    now,
                    states[j],
                    steps[j - 1],
                    replies[j],
                    givens[j],
                ),
            strat0 == *old(strategy),
            !asked ==> *strategy == strat0,
            !asked ==> forall|j: int| 0 <= j < steps.len() ==> !(#[trigger] steps[j] is AskStrategy),
            asked ==> *strategy == strat0.updated(now, ask_state, ev),
            asked ==> !before_strategy(cycle.phase()),
            asked ==> 0 <= ask_index < steps.len() && steps[ask_index] is AskStrategy,
            asked ==> forall|j: int|
                0 <= j < steps.len() && #[trigger] steps[j] is AskStrategy ==> states[j + 1]
                    == ask_state,
            paused0 && event is Account ==> steps.len() == 0,
        decreases cycle.rank(), cycle.count(),
    {
        let ghost phase_before = cycle.phase();
        let ghost state_before = *state;
        let step = cycle.advance(state, risk, reply, given);
        let ghost prev_steps = steps;
        let ghost prev_states = states;
        proof {
            states = states.push(*state);
            phases = phases.push(cycle.phase());
            steps = steps.push(step);
        }
        match step {
            EngineStep::Done(r) => {
                proof {
                    assert forall|j: int|
                        0 <= j < steps.len() && #[trigger] steps[j] is AskStrategy implies *strategy
                        == strat0.updated(now, states[j + 1], ev) by {
                        assert(j < prev_steps.len());
                        assert(prev_steps[j] == steps[j]);
                        assert(prev_states[j + 1] == states[j + 1]);
                    }
                    if asked {
                        assert(prev_steps[ask_index] == steps[ask_index]);
                        assert(steps[ask_index] is AskStrategy);
                    }
                    if !asked {
                        assert forall|j: int| 0 <= j < steps.len() implies !(
                        #[trigger] steps[j] is AskStrategy) by {
                            if j < prev_steps.len() {
                                assert(prev_steps[j] == steps[j]);
                            }
                        }
                    }
                    assert(cycle_run(
                        risk,
                        strat0,
                        *strategy,
                        exec,
                        ev,
                        now,
                        states,
                        phases,
                        replies,
                        givens,
                        steps,
                    ));
                }
                return r;
            },
            EngineStep::Request(req) => {
                reply = Some(exec.answer(state, &req));
                given = Vec::new();
                proof {
                    replies = replies.push(reply);
                    givens = givens.push(given@);
                }
            },
            EngineStep::AskStrategy => {
                let ctx = StrategyContext { now: cycle.engine_time(), state: &*state };
                given = strategy.on_event(&ctx, cycle.current_event());
                reply = None;
                proof {
                    asked = true;
                    ask_state = *state;
                    ask_index = steps.len() - 1;
                    replies = replies.push(reply);
                    givens = givens.push(given@);
                }
            },
        }
    }
}

/// One deterministic engine iteration (backtests / unit tests).
pub fn engine_step<S: Strategy, R: RiskCheck, G: LocalGateway>(
    state: &mut GlobalState,
    strategy: &mut S,
    risk: &RiskPipeline<R>,
    exec: &G,
    ev: Event,
) -> (r: Result<(), Error>)
    requires
        old(state).wf(),
    ensures
        processes(risk, *old(strategy), *final(strategy), exec, ev, *old(state), *final(state), r),
        old(state).paused && ev is Account ==> exists|
            mid: GlobalState,
            ra: Result<(), Error>,
            now: Timestamp,
        | #[trigger] account_then_refresh(*old(state), ev->Account_0, mid, ra, now, *final(state), r),
        final(state).wf(),
        final(state).instruments == old(state).instruments,
        final(state).paused == paused_after(ev, old(state).paused),
        match ev {
            Event::Market(m) => market_applied(*old(state), *final(state), m),
            _ => same_market(*final(state), *old(state)),
        },
        quiet_event(ev, old(state).paused) && old(state).anchor_refresh_safe() ==> r is Ok
            && only_pause_and_anchor(*old(state), *final(state)),
{
    dispatch_event(state, strategy, risk, exec, ev)
}

/// The pause flag after processing `events` in order from a state with flag `paused`.
pub open spec fn paused_after_all(events: Seq<Event>, paused: bool) -> bool
    decreases events.len(),
{
    if events.len() == 0 {
        paused
    } else {
        paused_after_all(events.drop_first(), paused_after(events[0], paused))
    }
}

/// No event of `events` is market data.
pub open spec fn no_market_data(events: Seq<Event>) -> bool {
    forall|k: int| 0 <= k < events.len() ==> !(#[trigger] events[k] is Market)
}

/// Processing `events` in order from `sts[0]`, with the strategy standing as `strats[0]`,
/// passes through the states `sts` and strategies `strats`: event `j` takes `sts[j]` to
/// `sts[j + 1]` with success, and the strategy from `strats[j]` to `strats[j + 1]`.
pub open spec fn batch_run<S: Strategy, R: RiskCheck, G: LocalGateway>(
    risk: &RiskPipeline<R>,
    exec: &G,
    events: Seq<Event>,
    sts: Seq<GlobalState>,
    strats: Seq<S>,
) -> bool {
    &&& 1 <= sts.len() <= events.len() + 1
    &&& strats.len() == sts.len()
    &&& forall|j: int|
        0 <= j < sts.len() - 1 ==> #[trigger] processes(
            risk,
            strats[j],
            strats[j + 1],
            exec,
            events[j],
            sts[j],
            sts[j + 1],
            Ok(()),
        )
}

/// Processing `events` in order succeeds through the states `sts` and strategies `strats`,
/// and the next event then fails with `e`, from the last of them into `after` (the strategy
/// into `strat_after`).
pub open spec fn batch_fails<S: Strategy, R: RiskCheck, G: LocalGateway>(
    risk: &RiskPipeline<R>,
    exec: &G,
    events: Seq<Event>,
    sts: Seq<GlobalState>,
    strats: Seq<S>,
    after: GlobalState,
    strat_after: S,
    e: Error,
) -> bool {
    &&& batch_run(risk, exec, events, sts, strats)
    &&& sts.len() <= events.len()
    &&& processes(
        risk,
        strats.last(),
        strat_after,
        exec,
        events[sts.len() - 1],
        sts.last(),
        after,
        Err(e),
    )
}

impl EngineBuilder {
    /// Offline replay: process `events` in order, stopping at the first error.
    pub fn run_batch<S: Strategy, R: RiskCheck, G: LocalGateway>(
        state: GlobalState,
        strategy: S,
        risk: &RiskPipeline<R>,
        exec: &G,
        events: Vec<Event>,
    ) -> (r: Result<GlobalState, Error>)
        requires
            state.wf(),
        ensures
            r matches Ok(s) ==> exists|sts: Seq<GlobalState>, strats: Seq<S>|
                #[trigger] batch_run(risk, exec, events@, sts, strats) && sts.len() == events@.len()
                    + 1 && sts[0] == state && strats[0] == strategy && sts.last() == s,
            r matches Err(e) ==> exists|
                sts: Seq<GlobalState>,
                strats: Seq<S>,
                after: GlobalState,
                strat_after: S,
            |
                #[trigger] batch_fails(risk, exec, events@, sts, strats, after, strat_after, e)
                    && sts[0] == state && strats[0] == strategy,
            r matches Ok(s) ==> {
                &&& s.wf()
                &&& s.instruments == state.instruments
                &&& s.paused == paused_after_all(events@, state.paused)
                &&& no_market_data(events@) ==> same_market(s, state)
            },
            events@.len() == 0 ==> (r matches Ok(s) && s == state),
            quiet_batch(events@, state.paused) && state.anchor_refresh_safe() ==> r is Ok,
    {
        let mut st = state;
        let mut strat = strategy;
        let mut pending = events;
        let ghost all = pending@;
        let ghost mut i: int = 0;
        let ghost mut sts: Seq<GlobalState> = seq![st];
        let ghost mut strats: Seq<S> = seq![strat];
        proof {
            assert(all.skip(0) =~= all);
        }
        while pending.len() > 0
            invariant
                st.wf(),
                st.instruments == state.instruments,
                0 <= i <= all.len(),
                all == events@,
                pending@ == all.skip(i),
                paused_after_all(all, state.paused) == paused_after_all(pending@, st.paused),
                no_market_data(all) ==> same_market(st, state),
                i == 0 ==> st == state,
                sts.len() == i + 1,
                sts[0] == state,
                sts.last() == st,
                strats.len() == i + 1,
                strats[0] == strategy,
                strats.last() == strat,
                batch_run(risk, exec, all, sts, strats),
                quiet_batch(all, state.paused) && state.anchor_refresh_safe() ==> quiet_batch(
                    pending@,
                    st.paused,
                ) && st.anchor_refresh_safe(),
            decreases pending@.len(),
        {
            let ghost rest = pending@;
            let ghost before = st;
            let ev = pending.remove(0);
            proof {
                assert(rest[0] == all[i]);
                assert(pending@ =~= rest.drop_first());
                assert(all.skip(i + 1) =~= rest.drop_first());
            }
            let ghost strat_before = strat;
            let ghost event = ev;
            let r = dispatch_event(&mut st, &mut strat, risk, exec, ev);
            proof {
                assert(processes(risk, strat_before, strat, exec, event, before, st, r));
            }
            match r {
                Ok(()) => {
                    proof {
                        assert(r is Ok);
                        let u: () = r->Ok_0;
                        assert(u == ());
                        assert(r == Ok::<(), Error>(()));
                    }
                },
                Err(e) => {
                    proof {
                        assert(batch_fails(risk, exec, all, sts, strats, st, strat, e));
                    }
                    return Err(e);
                },
            }
            proof {
                let prev = sts;
                let prev_strats = strats;
                sts = sts.push(st);
                strats = strats.push(strat);
                assert forall|j: int| 0 <= j < sts.len() - 1 implies #[trigger] processes(
                    risk,
                    strats[j],
                    strats[j + 1],
                    exec,
                    all[j],
                    sts[j],
                    sts[j + 1],
                    Ok(()),
                ) by {
                    if j == i {
                        assert(prev_strats[i] == strat_before);
                        assert(prev[i] == before);
                        assert(sts[i] == before && sts[i + 1] == st);
                        assert(strats[i] == strat_before && strats[i + 1] == strat);
                        assert(all[i] == event);
                        assert(processes(risk, strat_before, strat, exec, event, before, st, Ok(())));
                    }
                    if j < i {
                        assert(prev[j] == sts[j] && prev[j + 1] == sts[j + 1]);
                        assert(prev_strats[j] == strats[j] && prev_strats[j + 1] == strats[j + 1]);
                        assert(processes(
                            risk,
                            prev_strats[j],
                            prev_strats[j + 1],
                            exec,
                            all[j],
                            prev[j],
                            prev[j + 1],
                            Ok(()),
                        ));
                    }
                }
                if quiet_batch(all, state.paused) && state.anchor_refresh_safe() {
                    match before.daily_risk_quote {
                        Some(q) => st.lemma_equity_same_holdings(&before, q@),
                        None => {},
                    }
                }
                i = i + 1;
            }
        }
        proof {
            assert(batch_run(risk, exec, events@, sts, strats));
        }
        Ok(st)
    }
}

/// Error reported when a gateway request is answered with no reply.
fn missing_reply() -> (r: Error)
    ensures
        r matches Error::Invalid(m) && m@ == "missing gateway reply"@,
{
    Error::Invalid("missing gateway reply".to_owned())
}

} // verus!
