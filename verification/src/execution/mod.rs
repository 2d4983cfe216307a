//! Execution backends: paper trading, simulation, and the Binance signed REST protocol.

pub mod binance_live;
pub mod paper;
pub mod sim;

use crate::engine::GatewayRequest;
use crate::error::Error;
use crate::events::AccountEvent;
use crate::state::GlobalState;
use crate::decimal::{checked_add, checked_div, checked_mul, checked_sub, decimal_difference, decimal_product, decimal_quotient, decimal_sum, Dec, abs_int, decimal_ops_exact, exact_difference, exact_product, exact_sum, max_scale, value_is, MAX_MANTISSA, MAX_SCALE};
use crate::types::Side;
use vstd::prelude::*;

verus! {

/// The decimal 10000 (basis points per unit).
pub open spec fn ten_thousand() -> Dec {
    Dec::of(10000, 0)
}

/// `mid * bps / 10000`, added for a buy and subtracted for a sell; `None` on overflow.
pub open spec fn spec_slippage(side: Side, mid: Dec, bps: Dec) -> Option<Dec> {
    match decimal_product(mid, bps) {
        None => None,
        Some(x) => match decimal_quotient(x, ten_thousand()) {
            None => None,
            Some(adj) => match side {
                Side::Buy => decimal_sum(mid, adj),
                Side::Sell => decimal_difference(mid, adj),
            },
        },
    }
}

/// Slippage moves the price against the taker: a buy pays `mid` plus the adjustment and a
/// sell receives `mid` minus it, each exactly where it fits; the adjustment is `mid * bps`
/// over 10000, exactly where that product's mantissa is divisible by 10000.
pub proof fn law_slippage_moves_against_the_taker(side: Side, mid: Dec, bps: Dec)
    requires
        decimal_ops_exact(),
        mid.sc() + bps.sc() <= MAX_SCALE,
        abs_int(mid.mant() * bps.mant()) <= MAX_MANTISSA,
    ensures
        ({
            let prod = exact_product(mid, bps);
            let adj = decimal_quotient(prod, ten_thousand())->0;
            &&& decimal_quotient(prod, ten_thousand()) is Some
            &&& prod.mant() % 10000 == 0 ==> value_is(adj, prod.mant() / 10000, prod.sc())
            &&& side == Side::Buy && abs_int(exact_sum(mid, adj)) <= MAX_MANTISSA ==> (spec_slippage(
                side,
                mid,
                bps,
            ) matches Some(px) && value_is(px, exact_sum(mid, adj), max_scale(mid, adj)))
            &&& side == Side::Sell && abs_int(exact_difference(mid, adj)) <= MAX_MANTISSA
                ==> (spec_slippage(side, mid, bps) matches Some(px) && value_is(
                px,
                exact_difference(mid, adj),
                max_scale(mid, adj),
            ))
        }),
{
    Dec::lemma_of(10000, 0);
    assert(decimal_product(mid, bps) == Some(exact_product(mid, bps)));
}

/// Apply market-order slippage in basis points around `mid`; `None` on overflow.
pub fn apply_slippage(side: Side, mid: Dec, bps: Dec) -> (r: Option<Dec>)
    ensures
        r == spec_slippage(side, mid, bps),
{
    let x = match checked_mul(mid, bps) {
        Some(x) => x,
        None => {
            return None;
        },
    };
    let adj = match checked_div(x, Dec::from_u64(10000)) {
        Some(a) => a,
        None => {
            return None;
        },
    };
    match side {
        Side::Buy => checked_add(mid, adj),
        Side::Sell => checked_sub(mid, adj),
    }
}

/// An execution gateway that answers without I/O (paper trading, simulation).
pub trait LocalGateway {
    /// `r` is an answer this gateway may give to `request` on `state`.
    spec fn answers(
        &self,
        state: GlobalState,
        request: GatewayRequest,
        r: Result<Vec<AccountEvent>, Error>,
    ) -> bool;

    /// Perform a request against `state`; the account events it produces.
    fn answer(&self, state: &GlobalState, request: &GatewayRequest) -> (r: Result<
        Vec<AccountEvent>,
        Error,
    >)
        requires
            state.wf(),
        ensures
            self.answers(*state, *request, r),
    ;
}

impl LocalGateway for paper::PaperGateway {
    /// The paper rules: passive fills, cancel-all, or an order placed under a fresh id.
    open spec fn answers(
        &self,
        state: GlobalState,
        request: GatewayRequest,
        r: Result<Vec<AccountEvent>, Error>,
    ) -> bool {
        self.answers_request(&state, request, r)
    }

    /// Answers each request with the paper rules.
    fn answer(&self, state: &GlobalState, request: &GatewayRequest) -> (r: Result<
        Vec<AccountEvent>,
        Error,
    >) {
        match request {
            GatewayRequest::PollAfterMarket => self.poll_after_market(state),
            GatewayRequest::CancelAll => self.cancel_all(state),
            GatewayRequest::PlaceLimit(intent) => self.place_limit(state, intent),
            GatewayRequest::PlaceMarket(intent) => self.place_market(state, intent),
        }
    }
}

impl LocalGateway for sim::SimGateway {
    /// The rules of the paper gateway with the same configuration.
    open spec fn answers(
        &self,
        state: GlobalState,
        request: GatewayRequest,
        r: Result<Vec<AccountEvent>, Error>,
    ) -> bool {
        self.paper().answers_request(&state, request, r)
    }

    /// Answers as the paper gateway with the same configuration.
    fn answer(&self, state: &GlobalState, request: &GatewayRequest) -> (r: Result<
        Vec<AccountEvent>,
        Error,
    >) {
        self.gateway().answer(state, request)
    }
}

} // verus!
