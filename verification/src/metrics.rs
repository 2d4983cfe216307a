//! Profit and loss of an equity curve.

use crate::decimal::{checked_div, checked_sub, decimal_difference, decimal_quotient, Dec};
use crate::error::Error;
use crate::state::{overflow_message, zero, GlobalState};
use crate::timestamp::Timestamp;
use crate::types::{EquityPoint, InstrumentId};
use vstd::prelude::*;

verus! {

/// Append to an equity curve the mark-to-market equity of `state` for `inst` at `ts`, when
/// it can be valued; otherwise the curve is left as it is.
pub fn sample_equity(state: &GlobalState, inst: &InstrumentId, ts: Timestamp, curve: &mut Vec<EquityPoint>)
    requires
        state.wf(),
    ensures
        final(curve)@ == match state.spec_mark_to_market(inst@) {
            Some(eq) => old(curve)@.push(EquityPoint { ts, equity_quote: eq }),
            None => old(curve)@,
        },
{
    match state.mark_to_market_equity(inst) {
        Some(eq) => curve.push(EquityPoint { ts, equity_quote: eq }),
        None => {},
    }
}

/// Final minus initial equity, and that as a fraction of the initial equity (zero when the
/// initial equity is zero); zeros for an empty curve; `None` on overflow.
pub open spec fn spec_pnl(equity: Seq<EquityPoint>) -> Option<(Dec, Dec)> {
    if equity.len() == 0 {
        Some((zero(), zero()))
    } else {
        let first = equity[0].equity_quote;
        match decimal_difference(equity[equity.len() - 1].equity_quote, first) {
            None => None,
            Some(pnl) => if first.mant() == 0 {
                Some((pnl, zero()))
            } else {
                match decimal_quotient(pnl, first) {
                    Some(pct) => Some((pnl, pct)),
                    None => None,
                }
            },
        }
    }
}

/// PnL (final minus initial equity) and PnL / initial equity of an equity curve.
pub fn profit_and_loss(equity: &Vec<EquityPoint>) -> (r: Result<(Dec, Dec), Error>)
    ensures
        match spec_pnl(equity@) {
            Some(p) => r == Ok::<(Dec, Dec), Error>(p),
            None => r matches Err(Error::Invalid(m)) && m@ == "decimal overflow"@,
        },
{
    if equity.len() == 0 {
        return Ok((Dec::zero(), Dec::zero()));
    }
    let first = equity[0].equity_quote;
    let pnl = match checked_sub(equity[equity.len() - 1].equity_quote, first) {
        Some(p) => p,
        None => {
            return Err(Error::Invalid(overflow_message()));
        },
    };
    if first.is_zero() {
        return Ok((pnl, Dec::zero()));
    }
    match checked_div(pnl, first) {
        Some(pct) => Ok((pnl, pct)),
        None => Err(Error::Invalid(overflow_message())),
    }
}

} // verus!
