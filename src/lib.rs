//! A telemetry relay agent: it scrapes numeric fields from a fixed set of
//! sources, accumulates them into counters and gauges, and hands the result to
//! a metrics gateway once per cycle.
use vstd::prelude::*;

pub mod cycle;
pub mod decimal;
pub mod registry;
pub mod scrape;
pub mod text;
