//! The prediction service and the retraining lifecycle's swap.
//!
//! The service owns exactly one active model. Scoring a payment encodes
//! the request (with defaults for missing corridor statistics, so a
//! prediction never fails for lack of data) and runs the model; the
//! result of a lookup against the data store is handed in as a plain
//! `Option`, so the scoring path itself is total and exact. A completed
//! retrain installs the fitted parameters and the new timestamp-derived
//! version tag together, in a single write of the model field: no
//! observer can see new parameters under the old tag or the reverse.

use vstd::prelude::*;
use crate::MICRO;
use crate::features::PredictionFeatures;
use crate::features::encode_features;
use crate::features::spec_feature_vec;
use crate::model::MLModel;
use crate::model::PredictionResult;
use crate::version::spec_version;
use crate::version::version_string;

verus! {

/// Major version of every tag this service stamps.
pub const VERSION_MAJOR: u64 = 1;

/// Minor version of every tag this service stamps.
pub const VERSION_MINOR: u64 = 0;

/// The prediction service: the one active scoring model.
pub struct MLService {
    pub model: MLModel,
}

impl MLService {
    pub open spec fn wf(&self) -> bool {
        self.model.wf()
    }

    /// Start the service with a fresh, arbitrarily initialized model,
    /// version `"1.0.0"`; it serves until the first retrain.
    pub fn new(seed: u64) -> (s: MLService)
        ensures
            s.wf(),
            s.model.version@ == "1.0.0"@,
    {
        MLService { model: MLModel::new(seed) }
    }

    /// The version tag of the active model.
    pub fn active_version(&self) -> (v: String)
        ensures
            v@ == self.model.version@,
    {
        self.model.version.clone()
    }

    /// Score one proposed payment. The corridor statistics lookups are
    /// given as `Option`s; `None` falls back to the fixed defaults, so
    /// this never fails for lack of corridor data. The probability is
    /// the exactly specified forward pass on the encoded features, the
    /// confidence follows the decisiveness rule, and the version tag is
    /// the active model's.
    pub fn predict_payment_success(
        &self,
        corridor: &str,
        amount_micros: u64,
        timestamp: u64,
        liquidity_micros: Option<u64>,
        success_rate_micros: Option<u64>,
    ) -> (r: PredictionResult)
        requires
            self.wf(),
        ensures
            r.success_probability == self.model.spec_forward(
                spec_feature_vec(
                    corridor@,
                    amount_micros,
                    timestamp,
                    liquidity_micros,
                    success_rate_micros,
                ),
            ),
            r.success_probability <= MICRO,
            (r.success_probability > 700_000 || r.success_probability < 300_000)
                ==> r.confidence == 900_000,
            (300_000 <= r.success_probability <= 700_000) ==> r.confidence == 700_000,
            r.model_version@ == self.model.version@,
    {
        let features = encode_features(
            corridor,
            amount_micros,
            timestamp,
            liquidity_micros,
            success_rate_micros,
        );
        self.model.predict(&features)
    }

    /// Complete a retraining cycle: stamp the fitted model with the
    /// version tag derived from the retraining timestamp and make it the
    /// active model. Parameters and tag are installed in one write of
    /// the model field, and the new tag is returned.
    pub fn install_model(&mut self, fitted: MLModel, timestamp: u64) -> (v: String)
        requires
            old(self).wf(),
            fitted.wf(),
        ensures
            final(self).wf(),
            final(self).model.w1@ == fitted.w1@,
            final(self).model.b1@ == fitted.b1@,
            final(self).model.w2@ == fitted.w2@,
            final(self).model.b2@ == fitted.b2@,
            final(self).model.w3@ == fitted.w3@,
            final(self).model.b3@ == fitted.b3@,
            final(self).model.version@ == spec_version(VERSION_MAJOR, VERSION_MINOR, timestamp),
            v@ == spec_version(VERSION_MAJOR, VERSION_MINOR, timestamp),
    {
        let v = version_string(VERSION_MAJOR, VERSION_MINOR, timestamp);
        let tag = v.clone();
        self.model = MLModel {
            w1: fitted.w1,
            b1: fitted.b1,
            w2: fitted.w2,
            b2: fitted.b2,
            w3: fitted.w3,
            b3: fitted.b3,
            version: tag,
        };
        v
    }
}

} // verus!
