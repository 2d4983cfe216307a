//! Risk checks applied before execution.

use crate::decimal::{
    abs_int, decimal_product, checked_add, checked_mul, checked_sub, decimal_difference, decimal_ops_exact,
    decimal_sum, decimal_text, decimal_to_string, exact_sum, lt, max_scale, value_is, value_le,
    value_lt, Dec, MAX_MANTISSA, MAX_SCALE,
};
use crate::error::Error;
use crate::events::{OrderIntent, OrderIntentSource};
use crate::state::{exact_signed, minus_one, one, overflow_message, signed_qty, zero, GlobalState};
use crate::types::{Asset, InstrumentId, Side};
use vstd::prelude::*;

verus! {

/// What a rule decides: `Ok` to pass, `Err(Some(message))` to reject with a message,
/// `Err(None)` where a decimal result leaves the representable range (reported as
/// `Error::Invalid("decimal overflow")`).
pub type Verdict = Result<(), Option<Seq<char>>>;

/// The result of a check agrees with a verdict.
pub open spec fn outcome_matches(v: Verdict, r: Result<(), Error>) -> bool {
    match v {
        Ok(()) => r is Ok,
        Err(Some(m)) => r matches Err(Error::RiskRejected(s)) && s@ == m,
        Err(None) => r matches Err(Error::Invalid(m)) && m@ == "decimal overflow"@,
    }
}

/// Single risk rule.
pub trait RiskCheck {
    /// What the rule decides for `intent` on `state`.
    spec fn verdict(&self, state: &GlobalState, intent: &OrderIntent) -> Verdict;

    /// Validate intent against current snapshot.
    fn check(&self, state: &GlobalState, intent: &OrderIntent) -> (r: Result<(), Error>)
        requires
            state.wf(),
        ensures
            outcome_matches(self.verdict(state, intent), r),
    ;
}

/// Absolute value of a decimal.
pub open spec fn dec_abs(d: Dec) -> Dec {
    if d.mant() < 0 {
        Dec::of(-d.mant(), d.sc())
    } else {
        d
    }
}

/// Max absolute position size (base units) per instrument.
#[derive(Debug)]
pub struct MaxPositionSize {
    /// Instrument.
    pub instrument: InstrumentId,
    /// Max absolute base position after intent.
    pub max_abs: Dec,
}

impl MaxPositionSize {
    /// Position after the intent fills: current position plus `±qty`.
    pub open spec fn projected(&self, state: &GlobalState, intent: &OrderIntent) -> Option<Dec> {
        match signed_qty(intent.side, intent.qty) {
            Some(delta) => decimal_sum(state.position_or_zero(self.instrument@), delta),
            None => None,
        }
    }
}

impl RiskCheck for MaxPositionSize {
    /// Passes intents on other instruments; rejects when `|position + ±qty| > max_abs`.
    open spec fn verdict(&self, state: &GlobalState, intent: &OrderIntent) -> Verdict {
        if intent.instrument@ != self.instrument@ {
            Ok(())
        } else {
            match self.projected(state, intent) {
                None => Err(None),
                Some(p) => if value_lt(self.max_abs, dec_abs(p)) {
                    Err(
                        Some(
                            "position "@ + decimal_text(p) + " exceeds max "@ + decimal_text(
                                self.max_abs,
                            ),
                        ),
                    )
                } else {
                    Ok(())
                },
            }
        }
    }

    fn check(&self, state: &GlobalState, intent: &OrderIntent) -> (r: Result<(), Error>) {
        if !intent.instrument.same(&self.instrument) {
            return Ok(());
        }
        let current = match state.positions.get(&self.instrument) {
            Some(p) => *p,
            None => Dec::zero(),
        };
        let sign = match intent.side {
            Side::Buy => Dec::one(),
            Side::Sell => Dec::new(-1, 0),
        };
        let delta = match checked_mul(sign, intent.qty) {
            Some(d) => d,
            None => {
                return Err(Error::Invalid(overflow_message()));
            },
        };
        let projected = match checked_add(current, delta) {
            Some(p) => p,
            None => {
                return Err(Error::Invalid(overflow_message()));
            },
        };
        let a = projected.abs();
        proof {
            use_type_invariant(&projected);
            if projected.mant() < 0 {
                Dec::lemma_of(-projected.mant(), projected.sc());
            }
            Dec::lemma_ext(a, dec_abs(projected));
        }
        if lt(self.max_abs, a) {
            let mut m = "position ".to_owned();
            m.append(decimal_to_string(projected).as_str());
            m.append(" exceeds max ");
            m.append(decimal_to_string(self.max_abs).as_str());
            return Err(Error::RiskRejected(m));
        }
        Ok(())
    }
}

/// Block all new orders when paused flag is set.
#[derive(Clone, Copy, Debug, Default)]
pub struct PauseCheck;

impl RiskCheck for PauseCheck {
    /// Flatten intents pass; otherwise rejects while paused.
    open spec fn verdict(&self, state: &GlobalState, intent: &OrderIntent) -> Verdict {
        if intent.source == OrderIntentSource::Flatten {
            Ok(())
        } else if state.paused {
            Err(Some("engine paused"@))
        } else {
            Ok(())
        }
    }

    fn check(&self, state: &GlobalState, intent: &OrderIntent) -> (r: Result<(), Error>) {
        if intent.source == OrderIntentSource::Flatten {
            return Ok(());
        }
        if state.paused {
            return Err(Error::RiskRejected("engine paused".to_owned()));
        }
        Ok(())
    }
}

/// Block new orders when the mark-to-market equity has dropped from the day-start anchor by
/// more than the limit.
#[derive(Debug)]
pub struct MaxDailyLossQuote {
    /// Equity denominator asset (must match [`GlobalState::daily_risk_quote`]).
    pub quote: Asset,
    /// Maximum allowed drop from day-start equity in `quote` units.
    pub max_loss: Dec,
}

impl RiskCheck for MaxDailyLossQuote {
    /// Flatten intents pass, as does any intent before an anchor exists; otherwise rejects when
    /// `day_start_equity - equity > max_loss`.
    open spec fn verdict(&self, state: &GlobalState, intent: &OrderIntent) -> Verdict {
        if intent.source == OrderIntentSource::Flatten {
            Ok(())
        } else {
            match state.risk_day_anchor {
                None => Ok(()),
                Some((_, day_start)) => match state.spec_mark_equity(self.quote@) {
                    None => Err(None),
                    Some(current) => match decimal_difference(day_start, current) {
                        None => Err(None),
                        Some(loss) => if value_lt(self.max_loss, loss) {
                            Err(
                                Some(
                                    "max daily loss exceeded: "@ + decimal_text(loss) + " "@
                                        + self.quote@ + " (limit "@ + decimal_text(self.max_loss)
                                        + ")"@,
                                ),
                            )
                        } else {
                            Ok(())
                        },
                    },
                },
            }
        }
    }

    fn check(&self, state: &GlobalState, intent: &OrderIntent) -> (r: Result<(), Error>) {
        if intent.source == OrderIntentSource::Flatten {
            return Ok(());
        }
        let day_start = match state.risk_day_anchor {
            Some((_, eq)) => eq,
            None => {
                return Ok(());
            },
        };
        let current = match state.mark_equity_quote(&self.quote) {
            Some(c) => c,
            None => {
                return Err(Error::Invalid(overflow_message()));
            },
        };
        let loss = match checked_sub(day_start, current) {
            Some(l) => l,
            None => {
                return Err(Error::Invalid(overflow_message()));
            },
        };
        if lt(self.max_loss, loss) {
            let mut m = "max daily loss exceeded: ".to_owned();
            m.append(decimal_to_string(loss).as_str());
            m.append(" ");
            m.append(self.quote.0.as_str());
            m.append(" (limit ");
            m.append(decimal_to_string(self.max_loss).as_str());
            m.append(")");
            return Err(Error::RiskRejected(m));
        }
        Ok(())
    }
}

/// A built-in rule.
#[derive(Debug)]
pub enum RiskRule {
    /// [`MaxPositionSize`].
    MaxPositionSize(MaxPositionSize),
    /// [`PauseCheck`].
    Pause(PauseCheck),
    /// [`MaxDailyLossQuote`].
    MaxDailyLoss(MaxDailyLossQuote),
}

impl RiskCheck for RiskRule {
    open spec fn verdict(&self, state: &GlobalState, intent: &OrderIntent) -> Verdict {
        match self {
            RiskRule::MaxPositionSize(r) => r.verdict(state, intent),
            RiskRule::Pause(r) => r.verdict(state, intent),
            RiskRule::MaxDailyLoss(r) => r.verdict(state, intent),
        }
    }

    fn check(&self, state: &GlobalState, intent: &OrderIntent) -> (r: Result<(), Error>) {
        match self {
            RiskRule::MaxPositionSize(r) => r.check(state, intent),
            RiskRule::Pause(r) => r.check(state, intent),
            RiskRule::MaxDailyLoss(r) => r.check(state, intent),
        }
    }
}

/// Verdict of the first `n` checks, run in order: the first failure, else pass.
pub open spec fn pipeline_verdict<R: RiskCheck>(
    checks: Seq<R>,
    n: nat,
    state: &GlobalState,
    intent: &OrderIntent,
) -> Verdict
    decreases n,
{
    if n == 0 {
        Ok(())
    } else {
        match pipeline_verdict(checks, (n - 1) as nat, state, intent) {
            Ok(()) => checks[n - 1].verdict(state, intent),
            Err(e) => Err(e),
        }
    }
}

/// Ordered pipeline of checks.
pub struct RiskPipeline<R = RiskRule> {
    checks: Vec<R>,
}

impl<R: RiskCheck> RiskPipeline<R> {
    /// The checks, in order.
    pub closed spec fn rules(&self) -> Seq<R> {
        self.checks@
    }

    /// Verdict of the whole pipeline.
    pub open spec fn verdict(&self, state: &GlobalState, intent: &OrderIntent) -> Verdict {
        pipeline_verdict(self.rules(), self.rules().len(), state, intent)
    }

    /// New pipeline.
    pub fn new(checks: Vec<R>) -> (r: Self)
        ensures
            r.rules() == checks@,
    {
        RiskPipeline { checks }
    }

    /// Run all checks in order; the first rejection is returned.
    pub fn validate(&self, state: &GlobalState, intent: &OrderIntent) -> (r: Result<(), Error>)
        requires
            state.wf(),
        ensures
            outcome_matches(self.verdict(state, intent), r),
    {
        let mut i: usize = 0;
        while i < self.checks.len()
            invariant
                state.wf(),
                i <= self.checks@.len(),
                pipeline_verdict(self.checks@, i as nat, state, intent) is Ok,
            decreases self.checks@.len() - i,
        {
            let r = self.checks[i].check(state, intent);
            if r.is_err() {
                proof {
                    lemma_pipeline_fails_after(self.checks@, (i + 1) as nat, self.checks@.len(), state, intent);
                }
                return r;
            }
            i += 1;
        }
        Ok(())
    }
}

/// Once a check fails, the pipeline's verdict is that failure.
pub proof fn lemma_pipeline_fails_after<R: RiskCheck>(
    checks: Seq<R>,
    i: nat,
    n: nat,
    state: &GlobalState,
    intent: &OrderIntent,
)
    requires
        i <= n,
        pipeline_verdict(checks, i, state, intent) is Err,
    ensures
        pipeline_verdict(checks, n, state, intent) == pipeline_verdict(checks, i, state, intent),
    decreases n - i,
{
    if i < n {
        lemma_pipeline_fails_after(checks, i, (n - 1) as nat, state, intent);
    }
}

/// An intent on the rule's instrument passes the position limit only when the position it
/// would leave is within the limit in absolute value; intents on other instruments pass.
pub proof fn law_max_position_bounds_projection(
    rule: &MaxPositionSize,
    state: &GlobalState,
    intent: &OrderIntent,
)
    ensures
        intent.instrument@ != rule.instrument@ ==> rule.verdict(state, intent) is Ok,
        intent.instrument@ == rule.instrument@ && rule.verdict(state, intent) is Ok ==> (rule.projected(
            state,
            intent,
        ) matches Some(p) && value_le(dec_abs(p), rule.max_abs)),
{
}

/// The position limit counts the position already held: for an intent on the rule's
/// instrument, the projected position is the held position (zero when none) plus the
/// quantity, added for a buy and subtracted for a sell, computed exactly (where that sum
/// fits, as `rust_decimal` then adds exactly); the rule passes the intent exactly when that
/// projection is within the limit in absolute value.
pub proof fn law_max_position_counts_held_position(
    rule: &MaxPositionSize,
    state: &GlobalState,
    intent: &OrderIntent,
)
    requires
        decimal_ops_exact(),
        intent.qty.well_formed(),
        intent.instrument@ == rule.instrument@,
        abs_int(
            exact_sum(
                state.position_or_zero(rule.instrument@),
                exact_signed(intent.side, intent.qty),
            ),
        ) <= MAX_MANTISSA,
    ensures
        rule.projected(state, intent) matches Some(p) && value_is(
            p,
            exact_sum(
                state.position_or_zero(rule.instrument@),
                exact_signed(intent.side, intent.qty),
            ),
            max_scale(
                state.position_or_zero(rule.instrument@),
                exact_signed(intent.side, intent.qty),
            ),
        ) && (rule.verdict(state, intent) is Ok <==> value_le(dec_abs(p), rule.max_abs)),
{
    let q = intent.qty;
    Dec::lemma_of(1, 0);
    Dec::lemma_of(-1, 0);
    Dec::lemma_of(0, 0);
    assert(abs_int(one().mant() * q.mant()) <= MAX_MANTISSA);
    assert(abs_int(minus_one().mant() * q.mant()) <= MAX_MANTISSA);
    assert(decimal_product(one(), q) == Some(crate::decimal::exact_product(one(), q)));
    assert(decimal_product(minus_one(), q) == Some(crate::decimal::exact_product(minus_one(), q)));
    assert(signed_qty(intent.side, q) == Some(exact_signed(intent.side, q)));
    let held = state.position_or_zero(rule.instrument@);
    let es = exact_signed(intent.side, q);
    assert(decimal_sum(held, es) is Some);
}

/// The daily-loss rule measures the drop from the day-start equity to the current equity:
/// for an intent other than a flatten, with an anchor and a current equity, the loss is the
/// anchor minus the current equity, exactly where it fits, and the intent passes exactly when
/// that loss is at most the limit. Without an anchor the rule passes.
pub proof fn law_daily_loss_measures_drop_from_anchor(
    rule: &MaxDailyLossQuote,
    state: &GlobalState,
    intent: &OrderIntent,
)
    requires
        decimal_ops_exact(),
        intent.source != OrderIntentSource::Flatten,
    ensures
        state.risk_day_anchor is None ==> rule.verdict(state, intent) is Ok,
        ({
            let (_, start) = state.risk_day_anchor->0;
            let current = state.spec_mark_equity(rule.quote@)->0;
            state.risk_day_anchor is Some && state.spec_mark_equity(rule.quote@) is Some && abs_int(
                crate::decimal::exact_difference(start, current),
            ) <= MAX_MANTISSA ==> ({
                let loss = decimal_difference(start, current)->0;
                &&& value_is(
                    loss,
                    crate::decimal::exact_difference(start, current),
                    max_scale(start, current),
                )
                &&& rule.verdict(state, intent) is Ok <==> value_le(loss, rule.max_loss)
            })
        }),
{
}

/// A pipeline passes an intent exactly when each of its rules passes it.
pub proof fn law_pipeline_passes_iff_every_rule_passes<R: RiskCheck>(
    pipeline: &RiskPipeline<R>,
    state: &GlobalState,
    intent: &OrderIntent,
)
    ensures
        pipeline.verdict(state, intent) is Ok <==> forall|k: int|
            0 <= k < pipeline.rules().len() ==> #[trigger] pipeline.rules()[k].verdict(state, intent)
                is Ok,
{
    lemma_prefix_passes(pipeline.rules(), pipeline.rules().len(), state, intent);
}

proof fn lemma_prefix_passes<R: RiskCheck>(
    checks: Seq<R>,
    n: nat,
    state: &GlobalState,
    intent: &OrderIntent,
)
    requires
        n <= checks.len(),
    ensures
        pipeline_verdict(checks, n, state, intent) is Ok <==> forall|k: int|
            0 <= k < n ==> #[trigger] checks[k].verdict(state, intent) is Ok,
    decreases n,
{
    if n > 0 {
        lemma_prefix_passes(checks, (n - 1) as nat, state, intent);
    }
}

/// While trading is paused the pause rule rejects every strategy intent with
/// `engine paused`, and passes every flatten intent; when not paused it passes everything.
pub proof fn law_pause_blocks_user_not_flatten(state: &GlobalState, intent: &OrderIntent)
    ensures
        intent.source == OrderIntentSource::Flatten ==> PauseCheck.verdict(state, intent) is Ok,
        intent.source == OrderIntentSource::User && state.paused ==> PauseCheck.verdict(
            state,
            intent,
        ) == Err::<(), Option<Seq<char>>>(Some("engine paused"@)),
        !state.paused ==> PauseCheck.verdict(state, intent) is Ok,
{
}

/// Flatten intents pass the daily loss rule whatever the state; strategy intents pass it
/// while no day-start anchor is set.
pub proof fn law_daily_loss_spares_flatten(
    rule: &MaxDailyLossQuote,
    state: &GlobalState,
    intent: &OrderIntent,
)
    ensures
        intent.source == OrderIntentSource::Flatten ==> rule.verdict(state, intent) is Ok,
        state.risk_day_anchor is None ==> rule.verdict(state, intent) is Ok,
{
}

} // verus!
