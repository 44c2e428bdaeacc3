use corridor_ml::MICRO;
use corridor_ml::corridor::{corridor_hash_micros, pair_hash_micros};
use corridor_ml::features::{encode_features, success_rate_micros, PredictionFeatures};
use corridor_ml::fixed::magnitude_micros;
use corridor_ml::model::{confidence_micros, MLModel, PredictionResult};
use corridor_ml::risk::assess;
use corridor_ml::service::MLService;
use corridor_ml::timefeat::{day_feature_micros, day_of_week, hour_feature_micros, hour_of_day};
use corridor_ml::training::{
    is_report_epoch, mean_loss_micros, prepare_training_data, PaymentRecord,
};
use corridor_ml::version::{u64_to_string, version_string};

#[test]
fn test_ml_prediction() {
    let features = PredictionFeatures {
        corridor_hash: 500_000,          // 0.5
        amount_magnitude: 2_000_000,     // log10(100)
        hour_of_day: 500_000,            // 12 PM
        day_of_week: 300_000,            // Tuesday-ish
        liquidity_depth: 3_000_000,      // log10(1000)
        recent_success_rate: 850_000,    // 0.85
    };

    // Features are in expected ranges.
    assert!(features.corridor_hash <= MICRO);
    assert!(features.hour_of_day <= MICRO);
    assert!(features.day_of_week <= MICRO);
    assert!(features.recent_success_rate <= MICRO);
}

#[test]
fn test_prediction_result_risk_levels() {
    let high_prob = PredictionResult {
        success_probability: 900_000,
        confidence: 800_000,
        model_version: String::from("1.0.0"),
    };

    let response = assess(&high_prob);
    assert_eq!(response.risk_level, "low");
    assert!(response.recommendation.contains("Proceed"));

    let low_prob = PredictionResult {
        success_probability: 300_000,
        confidence: 800_000,
        model_version: String::from("1.0.0"),
    };

    let response = assess(&low_prob);
    assert_eq!(response.risk_level, "high");
    assert!(response.recommendation.contains("High risk"));
}

#[test]
fn hour_and_day_features_stay_in_range() {
    // 2023-11-14 22:13:20 UTC, a Tuesday.
    let ts: u64 = 1_700_000_000;
    assert_eq!(hour_of_day(ts), 22);
    assert_eq!(day_of_week(ts), 1);
    assert_eq!(hour_feature_micros(ts), 22 * MICRO / 24);
    assert_eq!(day_feature_micros(ts), MICRO / 7);

    // The epoch itself was a Thursday, midnight.
    assert_eq!(hour_of_day(0), 0);
    assert_eq!(day_of_week(0), 3);

    for ts in [0u64, 59, 3_600, 86_399, 86_400, 1_700_000_000, u64::MAX] {
        assert!(hour_feature_micros(ts) < MICRO);
        assert!(day_feature_micros(ts) < MICRO);
    }
}

#[test]
fn corridor_hash_is_stable_and_bounded() {
    let a = corridor_hash_micros("USD-issuerA");
    let b = corridor_hash_micros("USD-issuerA");
    assert_eq!(a, b);
    assert!(a < MICRO);
    assert_eq!(a % 1_000, 0);

    // The corridor string splits into (code, issuer) on the dashes.
    assert_eq!(a, pair_hash_micros("USD", "issuerA"));
    assert_eq!(corridor_hash_micros("USD"), pair_hash_micros("USD", ""));
    assert_eq!(corridor_hash_micros("A-B-C"), pair_hash_micros("A", "B"));
    assert!(corridor_hash_micros("") < MICRO);
}

#[test]
fn amount_magnitude_scenarios() {
    // $100 has magnitude exactly 2.0.
    assert_eq!(magnitude_micros(100_000_000), 2_000_000);
    // $0.50 is floored to zero, not negative.
    assert_eq!(magnitude_micros(500_000), 0);
    // $1 is exactly zero; $1000 exactly 3.0.
    assert_eq!(magnitude_micros(1_000_000), 0);
    assert_eq!(magnitude_micros(1_000_000_000), 3_000_000);
    // $50 lies between 1.69 and 1.70.
    let m = magnitude_micros(50_000_000);
    assert!(m > 1_690_000 && m < 1_700_000);
    // The largest representable amount stays under 14 units.
    assert!(magnitude_micros(u64::MAX) < 14 * MICRO);
}

#[test]
fn confidence_follows_the_decisiveness_rule() {
    assert_eq!(confidence_micros(900_000), 900_000);
    assert_eq!(confidence_micros(100_000), 900_000);
    assert_eq!(confidence_micros(500_000), 700_000);
    // Boundaries are part of the low-confidence band.
    assert_eq!(confidence_micros(700_000), 700_000);
    assert_eq!(confidence_micros(300_000), 700_000);
    assert_eq!(confidence_micros(700_001), 900_000);
    assert_eq!(confidence_micros(299_999), 900_000);
}

#[test]
fn model_output_is_a_probability() {
    let model = MLModel::new(42);
    assert_eq!(model.version, "1.0.0");
    let features = PredictionFeatures {
        corridor_hash: 123_000,
        amount_magnitude: 2_000_000,
        hour_of_day: 500_000,
        day_of_week: 142_857,
        liquidity_depth: 3_000_000,
        recent_success_rate: 800_000,
    };
    let result = model.predict(&features);
    assert!(result.success_probability <= MICRO);
    assert!(result.confidence == 700_000 || result.confidence == 900_000);
    assert_eq!(result.model_version, "1.0.0");

    // Determinism: the same model and features give the same score.
    let again = model.predict(&features);
    assert_eq!(result.success_probability, again.success_probability);
}

#[test]
fn prediction_succeeds_without_corridor_stats() {
    let service = MLService::new(7);
    let result = service.predict_payment_success("USD-issuerA", 100_000_000, 1_700_000_000, None, None);
    assert!(result.success_probability <= MICRO);
    assert_eq!(result.model_version, "1.0.0");

    // The defaults behind it: 1000 USD of liquidity and a 0.8 rate.
    let f = encode_features("USD-issuerA", 100_000_000, 1_700_000_000, None, None);
    assert_eq!(f.liquidity_depth, 3_000_000);
    assert_eq!(f.recent_success_rate, 800_000);
    assert_eq!(f.amount_magnitude, 2_000_000);

    // Supplied statistics are used instead, the rate capped at one.
    let g = encode_features("USD-issuerA", 100_000_000, 1_700_000_000, Some(1_000_000), Some(2_000_000));
    assert_eq!(g.liquidity_depth, 0);
    assert_eq!(g.recent_success_rate, MICRO);
}

#[test]
fn retrain_versions_increase() {
    let mut service = MLService::new(3);
    let fitted1 = MLModel::new(4);
    let fitted2 = MLModel::new(5);
    let v1 = service.install_model(fitted1, 1_700_000_000);
    assert_eq!(v1, "1.0.1700000000");
    assert_eq!(service.active_version(), "1.0.1700000000");
    let v2 = service.install_model(fitted2, 1_700_000_001);
    assert_eq!(v2, "1.0.1700000001");
    assert!(v1 < v2);
}

#[test]
fn version_formatting() {
    assert_eq!(u64_to_string(0), "0");
    assert_eq!(u64_to_string(12_345), "12345");
    assert_eq!(version_string(1, 0, 0), "1.0.0");
    assert_eq!(version_string(2, 17, 1_700_000_000), "2.17.1700000000");
}

#[test]
fn empty_training_set_is_guarded() {
    // No examples: no mean loss, never a division by zero.
    assert_eq!(mean_loss_micros(123, 0), None);
    assert_eq!(mean_loss_micros(10, 4), Some(2));
    assert_eq!(mean_loss_micros(0, 3), Some(0));

    let no_records: Vec<PaymentRecord> = Vec::new();
    let examples = prepare_training_data(&no_records);
    assert_eq!(examples.len(), 0);
}

#[test]
fn training_examples_use_placeholders() {
    let records = vec![
        PaymentRecord {
            amount_micros: 100_000_000,
            timestamp: 1_700_000_000,
            asset_code: String::from("USD"),
            asset_issuer: String::from("issuerA"),
            completed: true,
        },
        PaymentRecord {
            amount_micros: 500_000,
            timestamp: 0,
            asset_code: String::from("EUR"),
            asset_issuer: String::from(""),
            completed: false,
        },
    ];
    let examples = prepare_training_data(&records);
    assert_eq!(examples.len(), 2);
    assert_eq!(examples[0].outcome, MICRO);
    assert_eq!(examples[1].outcome, 0);
    assert_eq!(examples[0].features.liquidity_depth, 500_000);
    assert_eq!(examples[0].features.recent_success_rate, 800_000);
    assert_eq!(examples[0].features.amount_magnitude, 2_000_000);
    assert_eq!(examples[1].features.amount_magnitude, 0);
    assert_eq!(
        examples[0].features.corridor_hash,
        pair_hash_micros("USD", "issuerA")
    );

    assert!(is_report_epoch(0));
    assert!(is_report_epoch(20));
    assert!(!is_report_epoch(7));
}

#[test]
fn success_rate_is_null_safe() {
    // Zero attempts give rate zero, not a division error.
    assert_eq!(success_rate_micros(0, 0), 0);
    assert_eq!(success_rate_micros(5, 0), 0);
    assert_eq!(success_rate_micros(1, 2), 500_000);
    assert_eq!(success_rate_micros(4, 5), 800_000);
    // The rate is capped at one unit.
    assert_eq!(success_rate_micros(7, 7), MICRO);
    assert_eq!(success_rate_micros(9, 7), MICRO);
}

#[test]
fn middling_probability_is_medium_risk() {
    let mid = PredictionResult {
        success_probability: 500_000,
        confidence: 700_000,
        model_version: String::from("1.0.0"),
    };
    let response = assess(&mid);
    assert_eq!(response.risk_level, "medium");
    assert!(response.recommendation.contains("caution"));
    assert_eq!(response.success_probability, 500_000);
    assert_eq!(response.confidence, 700_000);
    assert_eq!(response.model_version, "1.0.0");

    // 0.7 exactly is already low risk (the boundary is inclusive).
    let boundary = PredictionResult {
        success_probability: 700_000,
        confidence: 700_000,
        model_version: String::from("1.0.0"),
    };
    assert_eq!(assess(&boundary).risk_level, "low");
}

#[test]
fn fitted_weights_are_validated() {
    let fresh = MLModel::new(9);
    let adopted = MLModel::from_weights(
        fresh.w1.clone(),
        fresh.b1.clone(),
        fresh.w2.clone(),
        fresh.b2.clone(),
        fresh.w3.clone(),
        fresh.b3.clone(),
        String::from("1.0.1"),
    );
    assert!(adopted.is_some());
    assert_eq!(adopted.unwrap().version, "1.0.1");

    // A parameter set with the wrong shape is refused.
    let refused = MLModel::from_weights(
        vec![vec![0_i64; 6]; 31],
        fresh.b1.clone(),
        fresh.w2.clone(),
        fresh.b2.clone(),
        fresh.w3.clone(),
        fresh.b3.clone(),
        String::from("1.0.2"),
    );
    assert!(refused.is_none());

    // So is one with an out-of-bounds weight.
    let mut bad = fresh.w1.clone();
    bad[0][0] = 65_000_000;
    let refused = MLModel::from_weights(
        bad,
        fresh.b1,
        fresh.w2,
        fresh.b2,
        fresh.w3,
        fresh.b3,
        String::from("1.0.3"),
    );
    assert!(refused.is_none());
}
