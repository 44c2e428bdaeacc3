//! The scoring model: a 6-32-16-1 feed-forward network in fixed point.
//!
//! Weights, biases and activations are integers in micros. Each layer is
//! an affine map followed by a saturating rectifier (hidden layers) or a
//! piecewise-linear sigmoid (output). Weights are bounded by `WEIGHT_MAX`
//! and activations by `ACT_MAX`, so no intermediate sum can overflow and
//! the whole forward pass is an exactly specified, total function of the
//! parameters and the input. The output always lies in `[0, MICRO]`.

use vstd::prelude::*;
use vstd::arithmetic::div_mod::lemma_hoist_over_denominator;
use vstd::arithmetic::div_mod::lemma_div_is_ordered;
use vstd::arithmetic::div_mod::lemma_div_by_multiple;
use vstd::arithmetic::div_mod::lemma_div_multiples_vanish;
use crate::MICRO;

verus! {

/// Largest magnitude a weight or bias may have: 64 units, in micros.
pub const WEIGHT_MAX: i64 = 64_000_000;

/// Largest magnitude an activation may have: 32 units, in micros.
/// Hidden activations are saturated here; encoded features stay well
/// below it.
pub const ACT_MAX: i64 = 32_000_000;

/// Bound on a dot-product accumulator: `32 * WEIGHT_MAX * ACT_MAX`.
pub const ACC_MAX: i64 = 65_536_000_000_000_000;

/// `ACC_MAX / MICRO`.
pub const ACC_MAX_SCALED: i64 = 65_536_000_000;

/// Sum of the first `n` products of `w` and `x`.
pub open spec fn spec_dot_n(w: Seq<i64>, x: Seq<i64>, n: int) -> int
    decreases n,
{
    if n <= 0 {
        0
    } else {
        spec_dot_n(w, x, n - 1) + w[n - 1] * x[n - 1]
    }
}

/// Dot product of two equal-length vectors.
pub open spec fn spec_dot(w: Seq<i64>, x: Seq<i64>) -> int {
    spec_dot_n(w, x, w.len() as int)
}

/// Saturating rectifier: clamp into `[0, ACT_MAX]`.
pub open spec fn spec_clamp_act(v: int) -> int {
    if v < 0 {
        0
    } else if v > ACT_MAX {
        ACT_MAX as int
    } else {
        v
    }
}

/// One hidden neuron: affine map rescaled back to micros, then the
/// saturating rectifier.
pub open spec fn spec_neuron(row: Seq<i64>, b: i64, x: Seq<i64>) -> int {
    spec_clamp_act(spec_dot(row, x) / (MICRO as int) + b)
}

/// One hidden layer.
pub open spec fn spec_layer(w: Seq<Vec<i64>>, b: Seq<i64>, x: Seq<i64>) -> Seq<i64> {
    Seq::new(w.len(), |j: int| spec_neuron(w[j]@, b[j], x) as i64)
}

/// Piecewise-linear sigmoid in micros: 0 below -2 units, `MICRO` above
/// +2 units, the chord `(z + 2) / 4` in between. Always in `[0, MICRO]`,
/// and exactly `MICRO / 2` at zero.
pub open spec fn spec_sigmoid(z: int) -> int {
    if z >= 2 * MICRO {
        MICRO as int
    } else if z <= -2 * (MICRO as int) {
        0
    } else {
        (z + 2 * MICRO) / 4
    }
}

/// The sigmoid output is a probability in `[0, MICRO]` for every finite
/// input.
pub proof fn lemma_sigmoid_range(z: int)
    ensures
        0 <= spec_sigmoid(z) <= MICRO,
{
}

/// The model's output is a probability in `[0, MICRO]` for every input:
/// the forward pass ends in the sigmoid, whose range is guaranteed.
pub proof fn lemma_forward_range(m: &MLModel, x: Seq<i64>)
    ensures
        0 <= m.spec_forward(x) <= MICRO,
{
}

/// Well-formed weight matrix: `rows` rows of `cols` entries, each entry
/// bounded by `WEIGHT_MAX` in magnitude.
pub open spec fn wf_matrix(w: Seq<Vec<i64>>, rows: int, cols: int) -> bool {
    w.len() == rows && (forall|i: int| 0 <= i < w.len() ==> (#[trigger] w[i])@.len() == cols)
        && (forall|i: int, j: int|
        0 <= i < w.len() && 0 <= j < cols ==> -WEIGHT_MAX <= #[trigger] w[i]@[j] <= WEIGHT_MAX)
}

/// Well-formed bias vector: `rows` entries bounded by `WEIGHT_MAX`.
pub open spec fn wf_bias(b: Seq<i64>, rows: int) -> bool {
    b.len() == rows && (forall|i: int|
        0 <= i < b.len() ==> -WEIGHT_MAX <= #[trigger] b[i] <= WEIGHT_MAX)
}

/// The fitted prediction outcome for one scored payment.
pub struct PredictionResult {
    /// Predicted success probability, in micros; always in `[0, MICRO]`.
    pub success_probability: u64,
    /// Decisiveness heuristic, in micros: 0.9 away from the boundary,
    /// 0.7 near it.
    pub confidence: u64,
    /// Version tag of the model that produced this prediction.
    pub model_version: String,
}

/// The scoring model: three affine layers (6 to 32 to 16 to 1) with
/// saturating rectifiers between them and the sigmoid at the end, plus
/// the version tag of this parameter set. Model and tag are only ever
/// replaced together, in one write.
pub struct MLModel {
    pub w1: Vec<Vec<i64>>,
    pub b1: Vec<i64>,
    pub w2: Vec<Vec<i64>>,
    pub b2: Vec<i64>,
    pub w3: Vec<Vec<i64>>,
    pub b3: Vec<i64>,
    pub version: String,
}

impl MLModel {
    /// All parameter groups have the architecture's shapes and bounded
    /// entries.
    pub open spec fn wf(&self) -> bool {
        wf_matrix(self.w1@, 32, 6) && wf_bias(self.b1@, 32) && wf_matrix(self.w2@, 16, 32)
            && wf_bias(self.b2@, 16) && wf_matrix(self.w3@, 1, 16) && wf_bias(self.b3@, 1)
    }

    /// The model's output, in micros, on a 6-entry input.
    pub open spec fn spec_forward(&self, x: Seq<i64>) -> int {
        spec_sigmoid(
            spec_dot(self.w3@[0]@, spec_layer(self.w2@, self.b2@, spec_layer(self.w1@, self.b1@, x)))
                / (MICRO as int) + self.b3@[0],
        )
    }
}

/// One step of a 64-bit linear congruential generator; used only to
/// seed a fresh model with small arbitrary weights.
fn lcg_next(state: u64) -> (r: u64)
{
    proof {
        assert((state as int) * 6364136223846793005 + 1442695040888963407
            < 0x1_0000_0000_0000_0000_0000_0000_0000_0000) by (nonlinear_arith)
            requires
                state <= 0xffff_ffff_ffff_ffff;
    }
    let p: u128 = (state as u128) * 6364136223846793005u128 + 1442695040888963407u128;
    (p % 0x1_0000_0000_0000_0000u128) as u64
}

/// One freshly drawn weight in `[-MICRO, MICRO]`, well inside
/// `WEIGHT_MAX`.
fn draw_weight(state: u64) -> (r: (i64, u64))
    ensures
        -WEIGHT_MAX <= r.0 <= WEIGHT_MAX,
{
    let next = lcg_next(state);
    let w: i64 = ((next % 2_000_001) as i64) - 1_000_000;
    (w, next)
}

/// A fresh bias vector of `len` arbitrary small entries.
fn init_bias(len: usize, state: u64) -> (r: (Vec<i64>, u64))
    ensures
        wf_bias(r.0@, len as int),
{
    let mut v: Vec<i64> = Vec::new();
    let mut st: u64 = state;
    let mut i: usize = 0;
    while i < len
        invariant
            i <= len,
            v@.len() == i,
            forall|k: int| 0 <= k < i ==> -WEIGHT_MAX <= #[trigger] v@[k] <= WEIGHT_MAX,
        decreases len - i,
    {
        let (w, next) = draw_weight(st);
        st = next;
        v.push(w);
        i = i + 1;
    }
    (v, st)
}

/// A fresh weight matrix of `rows` by `cols` arbitrary small entries.
fn init_matrix(rows: usize, cols: usize, state: u64) -> (r: (Vec<Vec<i64>>, u64))
    ensures
        wf_matrix(r.0@, rows as int, cols as int),
{
    let mut m: Vec<Vec<i64>> = Vec::new();
    let mut st: u64 = state;
    let mut i: usize = 0;
    while i < rows
        invariant
            i <= rows,
            m@.len() == i,
            forall|k: int| 0 <= k < i ==> (#[trigger] m@[k])@.len() == cols,
            forall|k: int, j: int|
                0 <= k < i && 0 <= j < cols ==> -WEIGHT_MAX <= #[trigger] m@[k]@[j] <= WEIGHT_MAX,
        decreases rows - i,
    {
        let (row, next) = init_bias(cols, st);
        st = next;
        m.push(row);
        i = i + 1;
    }
    (m, st)
}

/// Row-by-row bounds check against `wf_matrix`.
fn check_matrix(w: &Vec<Vec<i64>>, rows: usize, cols: usize) -> (b: bool)
    ensures
        b == wf_matrix(w@, rows as int, cols as int),
{
    if w.len() != rows {
        return false;
    }
    let mut i: usize = 0;
    while i < rows
        invariant
            i <= rows,
            w@.len() == rows,
            forall|k: int| 0 <= k < i ==> (#[trigger] w@[k])@.len() == cols,
            forall|k: int, j: int|
                0 <= k < i && 0 <= j < cols ==> -WEIGHT_MAX <= #[trigger] w@[k]@[j] <= WEIGHT_MAX,
        decreases rows - i,
    {
        if w[i].len() != cols {
            return false;
        }
        let mut j: usize = 0;
        while j < cols
            invariant
                i < rows,
                j <= cols,
                w@.len() == rows,
                w@[i as int]@.len() == cols,
                forall|k: int| 0 <= k < i ==> (#[trigger] w@[k])@.len() == cols,
                forall|k: int, l: int|
                    0 <= k < i && 0 <= l < cols ==> -WEIGHT_MAX <= #[trigger] w@[k]@[l]
                        <= WEIGHT_MAX,
                forall|l: int|
                    0 <= l < j ==> -WEIGHT_MAX <= #[trigger] w@[i as int]@[l] <= WEIGHT_MAX,
            decreases cols - j,
        {
            let entry = w[i][j];
            if entry < -WEIGHT_MAX || entry > WEIGHT_MAX {
                return false;
            }
            j = j + 1;
        }
        i = i + 1;
    }
    true
}

/// Entry-by-entry bounds check against `wf_bias`.
fn check_bias(b: &Vec<i64>, rows: usize) -> (ok: bool)
    ensures
        ok == wf_bias(b@, rows as int),
{
    if b.len() != rows {
        return false;
    }
    let mut i: usize = 0;
    while i < rows
        invariant
            i <= rows,
            b@.len() == rows,
            forall|k: int| 0 <= k < i ==> -WEIGHT_MAX <= #[trigger] b@[k] <= WEIGHT_MAX,
        decreases rows - i,
    {
        let entry = b[i];
        if entry < -WEIGHT_MAX || entry > WEIGHT_MAX {
            return false;
        }
        i = i + 1;
    }
    true
}

impl MLModel {
    /// A fresh model with arbitrary small weights drawn deterministically
    /// from `seed`, tagged as version `"1.0.0"`. This is what serves
    /// until the first retrain completes.
    pub fn new(seed: u64) -> (m: MLModel)
        ensures
            m.wf(),
            m.version@ == "1.0.0"@,
    {
        let (w1, s1) = init_matrix(32, 6, seed);
        let (b1, s2) = init_bias(32, s1);
        let (w2, s3) = init_matrix(16, 32, s2);
        let (b2, s4) = init_bias(16, s3);
        let (w3, s5) = init_matrix(1, 16, s4);
        let (b3, _s6) = init_bias(1, s5);
        MLModel { w1, b1, w2, b2, w3, b3, version: String::from_str("1.0.0") }
    }

    /// Adopt an externally fitted parameter set, if and only if it has
    /// the architecture's shapes and bounded entries.
    pub fn from_weights(
        w1: Vec<Vec<i64>>,
        b1: Vec<i64>,
        w2: Vec<Vec<i64>>,
        b2: Vec<i64>,
        w3: Vec<Vec<i64>>,
        b3: Vec<i64>,
        version: String,
    ) -> (r: Option<MLModel>)
        ensures
            r is Some <==> (wf_matrix(w1@, 32, 6) && wf_bias(b1@, 32) && wf_matrix(w2@, 16, 32)
                && wf_bias(b2@, 16) && wf_matrix(w3@, 1, 16) && wf_bias(b3@, 1)),
            r matches Option::Some(m) ==> m.wf() && m.w1@ == w1@ && m.b1@ == b1@ && m.w2@ == w2@
                && m.b2@ == b2@ && m.w3@ == w3@ && m.b3@ == b3@ && m.version@ == version@,
    {
        let ok = check_matrix(&w1, 32, 6) && check_bias(&b1, 32) && check_matrix(&w2, 16, 32)
            && check_bias(&b2, 16) && check_matrix(&w3, 1, 16) && check_bias(&b3, 1);
        if ok {
            Option::Some(MLModel { w1, b1, w2, b2, w3, b3, version })
        } else {
            Option::None
        }
    }
}

/// Dot product with overflow-free accumulation; inputs are bounded
/// entrywise and at most 32 long.
fn dot(w: &Vec<i64>, x: &Vec<i64>) -> (r: i64)
    requires
        w@.len() == x@.len(),
        w@.len() <= 32,
        forall|i: int| 0 <= i < w@.len() ==> -WEIGHT_MAX <= #[trigger] w@[i] <= WEIGHT_MAX,
        forall|i: int| 0 <= i < x@.len() ==> -ACT_MAX <= #[trigger] x@[i] <= ACT_MAX,
    ensures
        r == spec_dot(w@, x@),
        -ACC_MAX <= r <= ACC_MAX,
{
    let n = w.len();
    let mut acc: i64 = 0;
    let mut i: usize = 0;
    while i < n
        invariant
            i <= n,
            n == w@.len() == x@.len(),
            n <= 32,
            forall|k: int| 0 <= k < w@.len() ==> -WEIGHT_MAX <= #[trigger] w@[k] <= WEIGHT_MAX,
            forall|k: int| 0 <= k < x@.len() ==> -ACT_MAX <= #[trigger] x@[k] <= ACT_MAX,
            acc == spec_dot_n(w@, x@, i as int),
            -(i as int) * 2_048_000_000_000_000 <= acc <= (i as int) * 2_048_000_000_000_000,
        decreases n - i,
    {
        proof {
            assert(-2_048_000_000_000_000 <= w@[i as int] * x@[i as int] <= 2_048_000_000_000_000)
                by (nonlinear_arith)
                requires
                    -WEIGHT_MAX <= w@[i as int] <= WEIGHT_MAX,
                    -ACT_MAX <= x@[i as int] <= ACT_MAX,
                    WEIGHT_MAX == 64_000_000,
                    ACT_MAX == 32_000_000;
        }
        acc = acc + w[i] * x[i];
        i = i + 1;
    }
    acc
}

/// Rescale an accumulator from micros-squared back to micros: floor
/// division by `MICRO`, computed without signed division.
fn rescale(acc: i64) -> (r: i64)
    requires
        -ACC_MAX <= acc <= ACC_MAX,
    ensures
        r == acc as int / (MICRO as int),
        -ACC_MAX_SCALED <= r <= ACC_MAX_SCALED,
{
    let t: u64 = (acc + ACC_MAX) as u64;
    let q: u64 = t / MICRO;
    proof {
        assert(ACC_MAX_SCALED == 65_536_000_000);
        assert(MICRO == 1_000_000);
        assert((65_536_000_000 as int) * (1_000_000 as int) == (65_536_000_000_000_000 as int))
            by (nonlinear_arith);
        assert((ACC_MAX_SCALED as int) * (MICRO as int) == ACC_MAX as int);
        assert((1_000_000 as int) * (-65_536_000_000 as int) == -(
        65_536_000_000_000_000 as int)) by (nonlinear_arith);
        assert((MICRO as int) * (-(ACC_MAX_SCALED as int)) == -(ACC_MAX as int));
        lemma_hoist_over_denominator(acc as int, ACC_MAX_SCALED as int, MICRO as nat);
        assert(acc as int / (MICRO as int) + ACC_MAX_SCALED == (acc as int + ACC_MAX) / (
        MICRO as int));
        assert(q as int == (acc as int + ACC_MAX) / (MICRO as int));
        lemma_div_by_multiple(ACC_MAX_SCALED as int, MICRO as int);
        lemma_div_multiples_vanish(-(ACC_MAX_SCALED as int), MICRO as int);
        lemma_div_is_ordered(-(ACC_MAX as int), acc as int, MICRO as int);
        lemma_div_is_ordered(acc as int, ACC_MAX as int, MICRO as int);
    }
    (q as i64) - ACC_MAX_SCALED
}

/// One hidden layer of the forward pass.
fn layer_forward(w: &Vec<Vec<i64>>, b: &Vec<i64>, x: &Vec<i64>) -> (out: Vec<i64>)
    requires
        w@.len() == b@.len(),
        x@.len() <= 32,
        forall|i: int| 0 <= i < w@.len() ==> (#[trigger] w@[i])@.len() == x@.len(),
        forall|i: int, j: int|
            0 <= i < w@.len() && 0 <= j < x@.len() ==> -WEIGHT_MAX <= #[trigger] w@[i]@[j]
                <= WEIGHT_MAX,
        forall|i: int| 0 <= i < b@.len() ==> -WEIGHT_MAX <= #[trigger] b@[i] <= WEIGHT_MAX,
        forall|i: int| 0 <= i < x@.len() ==> -ACT_MAX <= #[trigger] x@[i] <= ACT_MAX,
    ensures
        out@ == spec_layer(w@, b@, x@),
        out@.len() == w@.len(),
        forall|j: int| 0 <= j < out@.len() ==> 0 <= #[trigger] out@[j] <= ACT_MAX,
{
    let n = w.len();
    let mut out: Vec<i64> = Vec::new();
    let mut j: usize = 0;
    while j < n
        invariant
            j <= n,
            n == w@.len() == b@.len(),
            x@.len() <= 32,
            forall|i: int| 0 <= i < w@.len() ==> (#[trigger] w@[i])@.len() == x@.len(),
            forall|i: int, k: int|
                0 <= i < w@.len() && 0 <= k < x@.len() ==> -WEIGHT_MAX <= #[trigger] w@[i]@[k]
                    <= WEIGHT_MAX,
            forall|i: int| 0 <= i < b@.len() ==> -WEIGHT_MAX <= #[trigger] b@[i] <= WEIGHT_MAX,
            forall|i: int| 0 <= i < x@.len() ==> -ACT_MAX <= #[trigger] x@[i] <= ACT_MAX,
            out@.len() == j,
            forall|i: int| 0 <= i < j ==> #[trigger] out@[i] == spec_neuron(w@[i]@, b@[i], x@),
            forall|i: int| 0 <= i < j ==> 0 <= #[trigger] out@[i] <= ACT_MAX,
        decreases n - j,
    {
        let acc = dot(&w[j], x);
        let s = rescale(acc);
        let z = s + b[j];
        let a: i64 = if z < 0 {
            0
        } else if z > ACT_MAX {
            ACT_MAX
        } else {
            z
        };
        out.push(a);
        j = j + 1;
    }
    proof {
        assert(out@ =~= spec_layer(w@, b@, x@));
    }
    out
}

/// The piecewise-linear sigmoid, in micros.
fn sigmoid_micros(z: i64) -> (r: u64)
    ensures
        r == spec_sigmoid(z as int),
        r <= MICRO,
{
    if z >= 2 * (MICRO as i64) {
        MICRO
    } else if z <= -2 * (MICRO as i64) {
        0
    } else {
        ((z + 2 * (MICRO as i64)) as u64) / 4
    }
}

/// The confidence heuristic: 0.9 when the probability is decisive
/// (outside the open interval (0.3, 0.7)), 0.7 when it is near the
/// decision boundary.
pub fn confidence_micros(p: u64) -> (c: u64)
    ensures
        (p > 700_000 || p < 300_000) ==> c == 900_000,
        (300_000 <= p <= 700_000) ==> c == 700_000,
{
    if p > 700_000 || p < 300_000 {
        900_000
    } else {
        700_000
    }
}

impl MLModel {
    /// Run the forward pass on an encoded feature vector. The result is
    /// the exactly specified `spec_forward`, a probability in
    /// `[0, MICRO]` for every well-formed input.
    pub fn forward(&self, features: &Vec<i64>) -> (r: u64)
        requires
            self.wf(),
            features@.len() == 6,
            forall|i: int| 0 <= i < features@.len() ==> 0 <= #[trigger] features@[i] <= ACT_MAX,
        ensures
            r == self.spec_forward(features@),
            r <= MICRO,
    {
        let h1 = layer_forward(&self.w1, &self.b1, features);
        let h2 = layer_forward(&self.w2, &self.b2, &h1);
        let acc = dot(&self.w3[0], &h2);
        let s = rescale(acc);
        let z = s + self.b3[0];
        sigmoid_micros(z)
    }

    /// Score one encoded feature vector: forward pass, the confidence
    /// rule, and the version tag of the parameters that produced the
    /// probability.
    pub fn predict(&self, features: &crate::features::PredictionFeatures) -> (r: PredictionResult)
        requires
            self.wf(),
            features.wf(),
        ensures
            r.success_probability == self.spec_forward(features.vec_view()),
            r.success_probability <= MICRO,
            (r.success_probability > 700_000 || r.success_probability < 300_000)
                ==> r.confidence == 900_000,
            (300_000 <= r.success_probability <= 700_000) ==> r.confidence == 700_000,
            r.model_version@ == self.version@,
    {
        let x = features.to_vec();
        let prob = self.forward(&x);
        let conf = confidence_micros(prob);
        PredictionResult {
            success_probability: prob,
            confidence: conf,
            model_version: self.version.clone(),
        }
    }
}

} // verus!
