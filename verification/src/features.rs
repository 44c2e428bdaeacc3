//! The feature encoder: from raw payment attributes to the fixed
//! 6-dimensional feature vector the scoring model consumes.
//!
//! Every feature is a nonnegative fixed-point value in micros:
//! corridor identity hash in `[0, MICRO)`, log-scaled amount, hour of day
//! and day of week in `[0, MICRO)`, log-scaled liquidity depth, and the
//! recent success rate in `[0, MICRO]`. Missing corridor statistics fall
//! back to fixed defaults (1000 USD of liquidity, a 0.8 success rate), so
//! encoding never fails.

use vstd::prelude::*;
use crate::MICRO;
use crate::corridor::spec_corridor_hash;
use crate::corridor::corridor_hash_micros;
use crate::fixed::spec_magnitude;
use crate::fixed::magnitude_micros;
use crate::timefeat::spec_hour_feature;
use crate::timefeat::spec_day_feature;
use crate::timefeat::hour_feature_micros;
use crate::timefeat::day_feature_micros;

verus! {

/// Liquidity assumed when the corridor has no recorded liquidity:
/// 1000 USD, in micros.
pub const DEFAULT_LIQUIDITY_MICROS: u64 = 1_000_000_000;

/// Success rate assumed when the corridor has no recorded history:
/// 0.8, in micros.
pub const DEFAULT_SUCCESS_RATE_MICROS: u64 = 800_000;

/// The fixed feature vector, each entry in micros.
pub struct PredictionFeatures {
    /// Stable corridor identity hash, in `[0, MICRO)`.
    pub corridor_hash: u64,
    /// `max(log10(amount in USD), 0)`, in micros.
    pub amount_magnitude: u64,
    /// Hour of day scaled into `[0, MICRO)`.
    pub hour_of_day: u64,
    /// Day of week scaled into `[0, MICRO)`.
    pub day_of_week: u64,
    /// `max(log10(liquidity in USD), 0)`, in micros.
    pub liquidity_depth: u64,
    /// Recent success rate, in `[0, MICRO]`.
    pub recent_success_rate: u64,
}

impl PredictionFeatures {
    /// Every field within its documented range.
    pub open spec fn wf(&self) -> bool {
        self.corridor_hash < MICRO && self.amount_magnitude < 14 * MICRO && self.hour_of_day
            < MICRO && self.day_of_week < MICRO && self.liquidity_depth < 14 * MICRO
            && self.recent_success_rate <= MICRO
    }

    /// The features in model-input order.
    pub open spec fn vec_view(&self) -> Seq<i64> {
        seq![
            self.corridor_hash as i64,
            self.amount_magnitude as i64,
            self.hour_of_day as i64,
            self.day_of_week as i64,
            self.liquidity_depth as i64,
            self.recent_success_rate as i64,
        ]
    }

    /// The features in model-input order, as a vector.
    pub fn to_vec(&self) -> (v: Vec<i64>)
        requires
            self.wf(),
        ensures
            v@ == self.vec_view(),
            v@.len() == 6,
            forall|i: int| 0 <= i < v@.len() ==> 0 <= #[trigger] v@[i] < 14 * MICRO,
    {
        let mut v: Vec<i64> = Vec::new();
        v.push(self.corridor_hash as i64);
        v.push(self.amount_magnitude as i64);
        v.push(self.hour_of_day as i64);
        v.push(self.day_of_week as i64);
        v.push(self.liquidity_depth as i64);
        v.push(self.recent_success_rate as i64);
        proof {
            assert(v@ =~= self.vec_view());
        }
        v
    }
}

/// A corridor's recent success rate in micros, from its counters:
/// `successful / total`, null-safe — zero attempts give rate zero, not a
/// division error — and capped at one unit.
pub fn success_rate_micros(successful: u64, total: u64) -> (r: u64)
    ensures
        total == 0 ==> r == 0,
        total > 0 && successful >= total ==> r == MICRO,
        successful < total ==> r == (successful * MICRO) as int / total as int,
        r <= MICRO,
{
    if total == 0 {
        0
    } else if successful >= total {
        MICRO
    } else {
        proof {
            vstd::arithmetic::mul::lemma_mul_upper_bound(
                successful as int,
                0xffff_ffff_ffff_ffff,
                MICRO as int,
                1_000_000,
            );
            vstd::arithmetic::mul::lemma_mul_strict_inequality(
                successful as int,
                total as int,
                MICRO as int,
            );
            vstd::arithmetic::mul::lemma_mul_is_commutative(total as int, MICRO as int);
            crate::fixed::lemma_div_lt(
                (successful * MICRO) as int,
                total as int,
                MICRO as int,
            );
        }
        let wide: u128 = (successful as u128) * (MICRO as u128) / (total as u128);
        wide as u64
    }
}

/// The liquidity-depth feature for a lookup result: log-scaled liquidity,
/// with the default applied when the lookup found nothing.
pub open spec fn spec_liquidity_feature(liquidity_micros: Option<u64>) -> int {
    match liquidity_micros {
        Option::Some(l) => spec_magnitude(l),
        Option::None => spec_magnitude(DEFAULT_LIQUIDITY_MICROS),
    }
}

/// The success-rate feature for a lookup result: the rate capped at one
/// unit, with the default applied when the lookup found nothing.
pub open spec fn spec_rate_feature(success_rate_micros: Option<u64>) -> int {
    match success_rate_micros {
        Option::Some(r) => if r > MICRO {
            MICRO as int
        } else {
            r as int
        },
        Option::None => DEFAULT_SUCCESS_RATE_MICROS as int,
    }
}

/// The whole encoded feature vector for a single prediction request.
pub open spec fn spec_feature_vec(
    corridor: Seq<char>,
    amount_micros: u64,
    timestamp: u64,
    liquidity_micros: Option<u64>,
    success_rate_micros: Option<u64>,
) -> Seq<i64> {
    seq![
        spec_corridor_hash(corridor) as i64,
        spec_magnitude(amount_micros) as i64,
        spec_hour_feature(timestamp) as i64,
        spec_day_feature(timestamp) as i64,
        spec_liquidity_feature(liquidity_micros) as i64,
        spec_rate_feature(success_rate_micros) as i64,
    ]
}

/// Encode one prediction request. Lookups that found nothing are given as
/// `None` and fall back to the fixed defaults; encoding itself never fails.
pub fn encode_features(
    corridor: &str,
    amount_micros: u64,
    timestamp: u64,
    liquidity_micros: Option<u64>,
    success_rate_micros: Option<u64>,
) -> (f: PredictionFeatures)
    ensures
        f.wf(),
        f.corridor_hash == spec_corridor_hash(corridor@),
        f.amount_magnitude == spec_magnitude(amount_micros),
        f.hour_of_day == spec_hour_feature(timestamp),
        f.day_of_week == spec_day_feature(timestamp),
        f.liquidity_depth == spec_liquidity_feature(liquidity_micros),
        f.recent_success_rate == spec_rate_feature(success_rate_micros),
        f.vec_view() == spec_feature_vec(
            corridor@,
            amount_micros,
            timestamp,
            liquidity_micros,
            success_rate_micros,
        ),
{
    let liquidity = match liquidity_micros {
        Option::Some(l) => magnitude_micros(l),
        Option::None => magnitude_micros(DEFAULT_LIQUIDITY_MICROS),
    };
    let rate = match success_rate_micros {
        Option::Some(r) => if r > MICRO {
            MICRO
        } else {
            r
        },
        Option::None => DEFAULT_SUCCESS_RATE_MICROS,
    };
    let f = PredictionFeatures {
        corridor_hash: corridor_hash_micros(corridor),
        amount_magnitude: magnitude_micros(amount_micros),
        hour_of_day: hour_feature_micros(timestamp),
        day_of_week: day_feature_micros(timestamp),
        liquidity_depth: liquidity,
        recent_success_rate: rate,
    };
    proof {
        assert(f.vec_view() =~= spec_feature_vec(
            corridor@,
            amount_micros,
            timestamp,
            liquidity_micros,
            success_rate_micros,
        ));
    }
    f
}

} // verus!
