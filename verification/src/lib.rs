//! Athena's Pallas: an event-driven trading engine core for live, paper and backtest trading.

use vstd::prelude::*;

pub mod decimal;
pub mod error;
pub mod events;
pub mod keyed;
pub mod state;
pub mod timestamp;
pub mod types;
pub mod risk;
pub mod execution;
pub mod strategy;
pub mod engine;
pub mod backtest;
pub mod metrics;
pub mod json;
pub mod text;
pub mod connectors;
pub mod control;
