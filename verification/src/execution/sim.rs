//! Simulation gateway: the paper gateway's fill rules, for backtests and replays.

use super::paper::{PaperConfig, PaperGateway};
use super::LocalGateway;
use crate::engine::GatewayRequest;
use crate::error::Error;
use crate::events::AccountEvent;
use crate::state::GlobalState;
use vstd::prelude::*;

verus! {

/// Backtest / replay gateway (same crossing rules as paper).
#[derive(Clone, Copy, Debug)]
pub struct SimGateway {
    inner: PaperGateway,
}

impl SimGateway {
    /// The paper gateway whose rules the simulator applies.
    pub closed spec fn paper(&self) -> PaperGateway {
        self.inner
    }

    /// New simulator with fee and slippage knobs.
    pub fn new(cfg: PaperConfig) -> (r: Self)
        ensures
            r.paper().config() == cfg,
    {
        SimGateway { inner: PaperGateway::new(cfg) }
    }

    /// The paper gateway that fills for the simulator.
    pub fn gateway(&self) -> (r: &PaperGateway)
        ensures
            *r == self.paper(),
    {
        &self.inner
    }
}

/// The simulator runs exactly the paper gateway with the same configuration: the gateway it
/// fills with ([`SimGateway::gateway`]) is that paper gateway, so every paper method
/// (`place_limit`, `place_market`, `cancel`, `cancel_all`, `poll_after_market`) behaves alike.
pub proof fn law_sim_runs_the_paper_rules(sim: &SimGateway, paper: &PaperGateway)
    requires
        sim.paper().config() == paper.config(),
    ensures
        sim.paper() == *paper,
{
    sim.paper().lemma_config_determines(paper);
}

/// The simulator answers every request exactly as the paper gateway with the same
/// configuration does.
pub proof fn law_sim_answers_as_paper(
    sim: &SimGateway,
    paper: &PaperGateway,
    state: GlobalState,
    request: GatewayRequest,
    r: Result<Vec<AccountEvent>, Error>,
)
    requires
        sim.paper().config() == paper.config(),
    ensures
        sim.answers(state, request, r) <==> paper.answers(state, request, r),
{
    sim.paper().lemma_config_determines(paper);
}

impl Default for SimGateway {
    fn default() -> (r: Self)
        ensures
            r.paper().config().fee_bps == crate::decimal::Dec::of(10, 0),
            r.paper().config().market_slippage_bps == crate::decimal::Dec::of(5, 0),
    {
        SimGateway::new(PaperConfig::default())
    }
}

} // verus!
