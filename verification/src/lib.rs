//! Sampling-and-history engine of a small host monitor.
//!
//! Raw host counters come in as integers, are turned into per-tick deltas and
//! percentages, and are kept in fixed-capacity rolling windows from which
//! sparkline polylines are derived. All quantities are integers: a [`sample::Sample`]
//! is a fixed-point number with six decimal places.

pub mod sample;
pub mod history;
pub mod delta;
pub mod sparkline;
pub mod telemetry;
pub mod view_model;
pub mod sampler;
pub mod battery;
