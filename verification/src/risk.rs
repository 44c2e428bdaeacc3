//! Downstream risk classification of a prediction.
//!
//! Callers see the raw probability thresholded into a risk label with a
//! recommendation. The boundaries are inclusive: exactly 0.7 is already
//! low risk, exactly 0.3 is already high risk.

use vstd::prelude::*;
use vstd::string::StringExecFns;
use crate::model::PredictionResult;

verus! {

/// Probability at or above which a payment is low risk, in micros.
pub const RISK_LOW_THRESHOLD: u64 = 700_000;

/// Probability at or below which a payment is high risk, in micros.
pub const RISK_HIGH_THRESHOLD: u64 = 300_000;

/// A prediction shaped for callers: the raw result plus the derived
/// risk label and recommendation.
pub struct PredictionResponse {
    pub success_probability: u64,
    pub confidence: u64,
    pub model_version: String,
    pub risk_level: String,
    pub recommendation: String,
}

/// Classify a prediction. The label is `"low"` at or above 0.7,
/// `"high"` at or below 0.3, and `"medium"` between; the recommendation
/// follows the label, and the raw fields carry over unchanged.
pub fn assess(result: &PredictionResult) -> (resp: PredictionResponse)
    ensures
        resp.success_probability == result.success_probability,
        resp.confidence == result.confidence,
        resp.model_version@ == result.model_version@,
        result.success_probability >= RISK_LOW_THRESHOLD ==> resp.risk_level@ == "low"@
            && resp.recommendation@ == "Proceed with payment"@,
        result.success_probability <= RISK_HIGH_THRESHOLD ==> resp.risk_level@ == "high"@
            && resp.recommendation@ == "High risk of failure - consider an alternative corridor"@,
        (RISK_HIGH_THRESHOLD < result.success_probability < RISK_LOW_THRESHOLD)
            ==> resp.risk_level@ == "medium"@ && resp.recommendation@
            == "Proceed with caution"@,
{
    let p = result.success_probability;
    let (level, advice) = if p >= RISK_LOW_THRESHOLD {
        ("low", "Proceed with payment")
    } else if p <= RISK_HIGH_THRESHOLD {
        ("high", "High risk of failure - consider an alternative corridor")
    } else {
        ("medium", "Proceed with caution")
    };
    PredictionResponse {
        success_probability: result.success_probability,
        confidence: result.confidence,
        model_version: result.model_version.clone(),
        risk_level: String::from_str(level),
        recommendation: String::from_str(advice),
    }
}

} // verus!
