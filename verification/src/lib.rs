//! Corridor payment success prediction.
//!
//! A fixed-point (parts-per-million) feature encoder, feed-forward scoring
//! model, and retraining lifecycle for predicting whether a cross-corridor
//! payment will succeed. All quantities that the model consumes or produces
//! are integers scaled by `MICRO`, so every step of the pipeline is exact
//! and verified.

use vstd::prelude::*;

pub mod corridor;
pub mod features;
pub mod fixed;
pub mod model;
pub mod risk;
pub mod service;
pub mod timefeat;
pub mod training;
pub mod version;

verus! {

/// One unit, in parts per million. A probability of 1.0 is `MICRO`;
/// a feature value of 0.5 is `MICRO / 2`.
pub const MICRO: u64 = 1_000_000;

} // verus!
