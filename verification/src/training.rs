//! The training procedure's deterministic core.
//!
//! Fitting itself is an iterative numeric optimization run by the caller;
//! what is fixed here, and verified, is everything the procedure decides:
//! how a historical payment record becomes a training example, that a
//! record kept by the store (one with an identifier) counts as a success,
//! the epoch schedule and its progress-report cadence, and the zero-guard
//! on the mean loss, so an empty training window can never divide by zero
//! (it is a no-op: the prior model stays in service).
//!
//! Bulk encoding uses fixed placeholder values for liquidity and success
//! rate instead of live lookups: historical point-in-time corridor
//! statistics are not reconstructed. That is a documented approximation
//! of the data source, not an accident. Likewise, the store only retains
//! records for completed payments, so failures are underrepresented in
//! every batch; that skew is inherited from the store and is not to be
//! corrected silently.

use vstd::prelude::*;
use crate::MICRO;
use crate::corridor::spec_pair_hash_micros;
use crate::corridor::pair_hash_micros;
use crate::features::PredictionFeatures;
use crate::fixed::spec_magnitude;
use crate::fixed::magnitude_micros;
use crate::timefeat::spec_hour_feature;
use crate::timefeat::spec_day_feature;
use crate::timefeat::hour_feature_micros;
use crate::timefeat::day_feature_micros;

verus! {

/// Liquidity-depth feature used for historical records: 0.5 units.
pub const PLACEHOLDER_LIQUIDITY_MICROS: u64 = 500_000;

/// Success-rate feature used for historical records: 0.8 units.
pub const PLACEHOLDER_SUCCESS_RATE_MICROS: u64 = 800_000;

/// Number of full-batch epochs every training run performs; there is no
/// early stopping.
pub const TRAINING_EPOCHS: u64 = 100;

/// The mean loss is reported every this many epochs.
pub const REPORT_PERIOD: u64 = 20;

/// One historical payment, as plain values: amount and timestamp, the
/// corridor pair it ran on (missing parts as empty strings), and whether
/// the store kept it as a completed payment.
pub struct PaymentRecord {
    pub amount_micros: u64,
    pub timestamp: u64,
    pub asset_code: String,
    pub asset_issuer: String,
    pub completed: bool,
}

/// One (feature vector, observed outcome) pair; the outcome is 0 or
/// `MICRO`.
pub struct TrainingExample {
    pub features: PredictionFeatures,
    pub outcome: u64,
}

/// What bulk encoding makes of one record.
pub open spec fn record_example_ok(e: TrainingExample, r: PaymentRecord) -> bool {
    &&& e.features.wf()
    &&& e.features.corridor_hash == spec_pair_hash_micros(r.asset_code@, r.asset_issuer@)
    &&& e.features.amount_magnitude == spec_magnitude(r.amount_micros)
    &&& e.features.hour_of_day == spec_hour_feature(r.timestamp)
    &&& e.features.day_of_week == spec_day_feature(r.timestamp)
    &&& e.features.liquidity_depth == PLACEHOLDER_LIQUIDITY_MICROS
    &&& e.features.recent_success_rate == PLACEHOLDER_SUCCESS_RATE_MICROS
    &&& e.outcome == if r.completed {
        MICRO as int
    } else {
        0
    }
}

/// Encode one historical record, with the fixed placeholder liquidity
/// and success-rate features. A record the store kept (a completed
/// payment) is a positive outcome.
pub fn encode_training_record(record: &PaymentRecord) -> (e: TrainingExample)
    ensures
        record_example_ok(e, *record),
{
    let features = PredictionFeatures {
        corridor_hash: pair_hash_micros(record.asset_code.as_str(), record.asset_issuer.as_str()),
        amount_magnitude: magnitude_micros(record.amount_micros),
        hour_of_day: hour_feature_micros(record.timestamp),
        day_of_week: day_feature_micros(record.timestamp),
        liquidity_depth: PLACEHOLDER_LIQUIDITY_MICROS,
        recent_success_rate: PLACEHOLDER_SUCCESS_RATE_MICROS,
    };
    let outcome: u64 = if record.completed {
        MICRO
    } else {
        0
    };
    TrainingExample { features, outcome }
}

/// Encode a whole window of recent history, record by record.
pub fn prepare_training_data(records: &Vec<PaymentRecord>) -> (out: Vec<TrainingExample>)
    ensures
        out@.len() == records@.len(),
        forall|i: int|
            0 <= i < records@.len() ==> record_example_ok(#[trigger] out@[i], records@[i]),
{
    let mut out: Vec<TrainingExample> = Vec::new();
    let mut i: usize = 0;
    while i < records.len()
        invariant
            i <= records@.len(),
            out@.len() == i,
            forall|k: int|
                0 <= k < i ==> record_example_ok(#[trigger] out@[k], records@[k]),
        decreases records@.len() - i,
    {
        let e = encode_training_record(&records[i]);
        out.push(e);
        i = i + 1;
    }
    out
}

/// The mean loss over an epoch, in micros, with the zero-guard: an empty
/// batch has no mean, and the caller must skip rather than divide.
pub fn mean_loss_micros(total_loss_micros: u64, count: usize) -> (r: Option<u64>)
    ensures
        count == 0 ==> r == Option::<u64>::None,
        count != 0 ==> r == Option::Some((total_loss_micros as int / count as int) as u64),
{
    if count == 0 {
        Option::None
    } else {
        Option::Some(total_loss_micros / (count as u64))
    }
}

/// Whether the training loop reports progress at this epoch (every
/// `REPORT_PERIOD` epochs, starting with the first).
pub fn is_report_epoch(epoch: u64) -> (b: bool)
    ensures
        b == (epoch % REPORT_PERIOD == 0),
{
    epoch % REPORT_PERIOD == 0
}

} // verus!
