//! Quest-day scaffolding support and a verified solution-timing harness:
//! validated day numbers, a sampler and orchestrator around opaque solvers,
//! an aggregated timing report, its rendering and an idempotent merge of that
//! rendering into a larger document.

pub mod day;
pub mod text;
mod clock;
pub mod sampler;
pub mod stats;
pub mod report;
pub mod runner;
pub mod render;
pub mod merge;
pub mod paths;
pub mod solutions;
