//! Run configuration: population composition, behavioural parameters,
//! network topology parameters and simulation bounds.

use vstd::prelude::*;

verus! {

/// Number of time units that make up one period: times are fixed-point
/// with three fractional digits.
pub const TIME_SCALE: u64 = 1000;

/// An exact rational parameter `num / den`.
///
/// Behavioural parameters (anchoring speed, blend weight, probabilities,
/// the loss-aversion multiplier) are rationals so that every update rule
/// of the engine is exact integer arithmetic.
#[derive(Clone, Copy, Debug, PartialEq, Eq, Structural)]
pub struct Ratio {
    pub num: u32,
    pub den: u32,
}

impl Ratio {
    /// A usable rational: the denominator is positive.
    pub open spec fn wf(self) -> bool {
        self.den > 0
    }

    /// A probability or weight: a rational in `[0, 1]`.
    pub open spec fn is_prob(self) -> bool {
        self.den > 0 && self.num <= self.den
    }

    pub fn new(num: u32, den: u32) -> (r: Ratio)
        requires
            den > 0,
        ensures
            r.num == num && r.den == den,
            r.wf(),
    {
        Ratio { num, den }
    }

    /// Whether the rational is `0`.
    pub open spec fn is_zero(self) -> bool {
        self.num == 0
    }

    /// Whether the rational is `1` (for probabilities).
    pub open spec fn is_one(self) -> bool {
        self.num == self.den
    }
}

/// `r * x`, rounded down: the fixed-point product of a rational parameter
/// and a quantity.
pub open spec fn ratio_mul(r: Ratio, x: int) -> int {
    (r.num * x) / (r.den as int)
}

/// `r * x + (1 - r) * y`, rounded down: the convex blend of two
/// quantities by a weight in `[0, 1]`.
pub open spec fn blend(r: Ratio, x: int, y: int) -> int {
    (r.num * x + (r.den - r.num) * y) / (r.den as int)
}

/// A product of two bounded non-negative quantities is bounded by the
/// product of the bounds.
pub proof fn lemma_mul_bounds(a: int, b: int, ma: int, mb: int)
    requires
        0 <= a <= ma,
        0 <= b <= mb,
    ensures
        0 <= a * b <= ma * mb,
{
    assert(0 <= a * b <= ma * mb) by (nonlinear_arith)
        requires
            0 <= a <= ma,
            0 <= b <= mb,
    ;
}

/// A convex blend of two quantities lies between `0` and their maximum.
pub proof fn lemma_wavg_bound(wa: int, wb: int, x: int, y: int, m: int)
    requires
        0 <= wa,
        0 <= wb,
        wa + wb > 0,
        0 <= x <= m,
        0 <= y <= m,
    ensures
        0 <= (wa * x + wb * y) / (wa + wb) <= m,
{
    assert(0 <= wa * x + wb * y <= (wa + wb) * m) by (nonlinear_arith)
        requires
            0 <= wa,
            0 <= wb,
            0 <= x <= m,
            0 <= y <= m,
    ;
    vstd::arithmetic::div_mod::lemma_div_pos_is_pos(wa * x + wb * y, wa + wb);
    vstd::arithmetic::div_mod::lemma_div_is_ordered(wa * x + wb * y, (wa + wb) * m, wa + wb);
    vstd::arithmetic::div_mod::lemma_div_multiples_vanish(m, wa + wb);
}

/// The blend of two quantities below a common bound stays below it.
pub proof fn lemma_blend_bound(r: Ratio, x: int, y: int, m: int)
    requires
        r.is_prob(),
        0 <= x <= m,
        0 <= y <= m,
    ensures
        0 <= blend(r, x, y) <= m,
{
    lemma_wavg_bound(r.num as int, r.den - r.num, x, y, m);
}

/// An average of quantities below a common bound stays below it.
pub proof fn lemma_avg_bound(s: int, n: int, m: int)
    requires
        n > 0,
        0 <= s <= n * m,
        0 <= m,
    ensures
        0 <= s / n <= m,
{
    vstd::arithmetic::div_mod::lemma_div_pos_is_pos(s, n);
    vstd::arithmetic::div_mod::lemma_div_is_ordered(s, n * m, n);
    vstd::arithmetic::div_mod::lemma_div_multiples_vanish(m, n);
}

/// For positive `s`, comparing against the quotient `m / s` decides
/// whether a product `x * s` stays below `m`.
proof fn lemma_le_div(x: int, s: int, m: int)
    requires
        s > 0,
        0 <= x,
        0 <= m,
    ensures
        (x <= m / s) <==> (x * s <= m),
{
    vstd::arithmetic::div_mod::lemma_fundamental_div_mod(m, s);
    let q = m / s;
    let r = m % s;
    assert((x <= q) <==> (x * s <= m)) by (nonlinear_arith)
        requires
            m == s * q + r,
            0 <= r < s,
            s > 0,
    ;
}

/// Sum of a sequence of group sizes.
pub open spec fn sum_sizes(s: Seq<usize>) -> int
    decreases s.len(),
{
    if s.len() == 0 {
        0
    } else {
        sum_sizes(s.drop_last()) + s.last()
    }
}

/// Immutable per-run configuration.
///
/// Monetary fields (`group_means`, `max_price`, `sigmoid_scale`) are in
/// milli-units; `n_periods` counts whole periods.
#[derive(Clone, Debug)]
pub struct ProblemSettings {
    /// Strategy-facing number of visits.
    pub n_visits: usize,
    /// Time horizon, in periods.
    pub n_periods: u64,
    /// Number of customer groups.
    pub n_groups: usize,
    /// Total number of customers.
    pub n_customers: usize,
    /// Price-anchoring speed of the internal reference price.
    pub tau: Ratio,
    /// Multiplier applied to each group mean when sampling willingness to pay.
    pub scaling: u64,
    /// Number of customers in each group.
    pub group_sizes: Vec<usize>,
    /// Mean willingness to pay of each group, in milli-units.
    pub group_means: Vec<u64>,
    /// Diminishing-sensitivity exponent of the willingness-to-pay update.
    pub alpha: Ratio,
    /// Loss-aversion multiplier.
    pub lambda: Ratio,
    /// Blend weight of the external reference price.
    pub eta: Ratio,
    /// Budget on processed events: a runaway-reschedule safeguard.
    pub max_events: u64,
    /// Probability that a customer's group is predicted correctly.
    pub clustering_accuracy: Ratio,
    /// Ring-lattice degree of the intra-group network.
    pub k_neighbors: usize,
    /// Probability of rewiring an intra-group edge.
    pub p_intra: Ratio,
    /// Probability of adding an edge towards each other group.
    pub p_inter: Ratio,
    /// Probability of global word-of-mouth leakage per other customer.
    pub global_wom_prob: Ratio,
    /// Largest price a strategy is expected to propose, in milli-units.
    pub max_price: u64,
    /// Number of groups a strategy distinguishes.
    pub num_predicted_groups: usize,
    /// Sharpness of the purchase-probability curve, in milli-units.
    pub sigmoid_scale: u64,
}

impl ProblemSettings {
    /// Well-formed configuration. Violations are programmer errors: the
    /// engine's entry points require this, and callers should check it
    /// with [`ProblemSettings::is_valid`] and fail fast.
    pub open spec fn wf(self) -> bool {
        &&& self.n_groups == self.group_sizes@.len()
        &&& self.n_groups == self.group_means@.len()
        &&& sum_sizes(self.group_sizes@) == self.n_customers
        &&& self.n_customers <= usize::MAX / 2
        &&& forall|g: int|
            0 <= g < self.group_sizes@.len() ==> (#[trigger] self.group_sizes@[g])
                > self.k_neighbors
        &&& forall|g: int|
            0 <= g < self.group_means@.len() ==> (#[trigger] self.group_means@[g])
                * self.scaling <= u64::MAX
        &&& self.tau.is_prob()
        &&& self.eta.is_prob()
        &&& self.clustering_accuracy.is_prob()
        &&& self.p_intra.is_prob()
        &&& self.p_inter.is_prob()
        &&& self.global_wom_prob.is_prob()
        &&& self.alpha.wf()
        &&& self.lambda.wf()
        &&& self.n_periods <= u32::MAX
        &&& self.max_events <= u32::MAX
        &&& self.num_predicted_groups >= 1
    }

    /// The time horizon in time units.
    pub open spec fn spec_horizon(&self) -> int {
        self.n_periods * TIME_SCALE
    }

    /// The time horizon in time units.
    pub fn horizon(&self) -> (h: u64)
        requires
            self.wf(),
        ensures
            h == self.spec_horizon(),
    {
        self.n_periods * TIME_SCALE
    }

    /// Runtime validity check, so that misconfiguration fails fast
    /// before a run begins.
    pub fn is_valid(&self) -> (r: bool)
        ensures
            r == self.wf(),
    {
        if self.n_groups != self.group_sizes.len() || self.n_groups != self.group_means.len() {
            return false;
        }
        let mut total: u128 = 0;
        let mut g: usize = 0;
        while g < self.group_sizes.len()
            invariant
                0 <= g <= self.group_sizes@.len(),
                self.group_sizes@.len() <= usize::MAX,
                total == sum_sizes(self.group_sizes@.take(g as int)),
                total <= g * (usize::MAX as int),
                forall|j: int|
                    0 <= j < g ==> (#[trigger] self.group_sizes@[j]) > self.k_neighbors,
            decreases self.group_sizes@.len() - g,
        {
            if self.group_sizes[g] <= self.k_neighbors {
                return false;
            }
            proof {
                assert(self.group_sizes@.take(g + 1).drop_last() =~= self.group_sizes@.take(
                    g as int,
                ));
                assert(total + self.group_sizes@[g as int] <= (g + 1) * (usize::MAX as int)
                    < u128::MAX) by (nonlinear_arith)
                    requires
                        total <= g * (usize::MAX as int),
                        0 <= g < usize::MAX,
                        0 <= self.group_sizes@[g as int] <= usize::MAX,
                ;
            }
            total = total + self.group_sizes[g] as u128;
            g = g + 1;
        }
        proof {
            assert(self.group_sizes@.take(g as int) =~= self.group_sizes@);
        }
        if total != self.n_customers as u128 {
            return false;
        }
        if self.n_customers > usize::MAX / 2 {
            return false;
        }
        let mut m: usize = 0;
        while m < self.group_means.len()
            invariant
                0 <= m <= self.group_means@.len(),
                forall|j: int|
                    0 <= j < m ==> (#[trigger] self.group_means@[j]) * self.scaling
                        <= u64::MAX,
            decreases self.group_means@.len() - m,
        {
            let mean = self.group_means[m];
            proof {
                if self.scaling != 0 {
                    lemma_le_div(mean as int, self.scaling as int, u64::MAX as int);
                }
            }
            if self.scaling != 0 && mean > u64::MAX / self.scaling {
                return false;
            }
            m = m + 1;
        }
        self.tau.den > 0 && self.tau.num <= self.tau.den && self.eta.den > 0 && self.eta.num
            <= self.eta.den && self.clustering_accuracy.den > 0 && self.clustering_accuracy.num
            <= self.clustering_accuracy.den && self.p_intra.den > 0 && self.p_intra.num
            <= self.p_intra.den && self.p_inter.den > 0 && self.p_inter.num <= self.p_inter.den
            && self.global_wom_prob.den > 0 && self.global_wom_prob.num
            <= self.global_wom_prob.den && self.alpha.den > 0 && self.lambda.den > 0
            && self.n_periods <= u32::MAX as u64 && self.max_events <= u32::MAX as u64
            && self.num_predicted_groups >= 1
    }
}

} // verus!
