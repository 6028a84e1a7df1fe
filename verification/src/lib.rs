//! Recompute pipeline of an interactive equation plotter.
//!
//! A host shell feeds the pipeline an equation text and a symmetric integer
//! range bound whenever the user edits either. The pipeline rebuilds an
//! expression evaluator from the text and sweeps it over every integer sample
//! in `[-bound, bound]`, collecting one plottable point per successful sample
//! and stopping at the first failure. Construction failures and evaluation
//! failures are kept apart and surfaced as data for the host to render.

pub mod evaluator;
pub mod model;
pub mod pipeline;
pub mod scan;
