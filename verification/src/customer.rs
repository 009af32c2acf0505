//! The per-customer behavioural model: a reference-price state machine
//! with prospect-theory willingness-to-pay updates.

use vstd::prelude::*;
use crate::settings::{blend, lemma_avg_bound, lemma_blend_bound, lemma_mul_bounds, ratio_mul, Ratio};
use crate::strategy::StochasticModel;

verus! {

/// Sum of a sequence of milli-unit quantities.
pub open spec fn sum_u64(s: Seq<u64>) -> int
    decreases s.len(),
{
    if s.len() == 0 {
        0
    } else {
        sum_u64(s.drop_last()) + s.last()
    }
}

/// A sum of `u64` values is non-negative and at most `len * u64::MAX`.
pub proof fn lemma_sum_u64_bounds(s: Seq<u64>)
    ensures
        0 <= sum_u64(s) <= s.len() * u64::MAX,
    decreases s.len(),
{
    if s.len() == 0 {
    } else {
        lemma_sum_u64_bounds(s.drop_last());
        assert((s.len() - 1) * u64::MAX + u64::MAX == s.len() * u64::MAX) by (nonlinear_arith);
    }
}

/// One customer of the simulated population.
///
/// All monetary state is in milli-units. The customer is created by the
/// population factory and mutated only by the behavioural updates below
/// while their visit is resolved.
#[derive(Clone, Debug)]
pub struct Customer {
    /// Unique identifier: the customer's index in the population.
    pub id: usize,
    /// True underlying group.
    pub group: usize,
    /// Group the customer is predicted to belong to.
    pub predicted_group: usize,
    /// Internal reference price.
    pub irp: u64,
    /// External reference price.
    pub erp: u64,
    /// Blended reference price.
    pub rp: u64,
    /// Current willingness to pay.
    pub wtp: u64,
    /// Fixed ceiling on willingness to pay, set at creation.
    pub max_wtp: u64,
    /// Prices paid, appended on purchase; purchase is terminal, so it
    /// holds at most one entry.
    pub price_hist: Vec<u64>,
    /// Ids of neighbouring customers in the influence network.
    pub neighbors: Vec<usize>,
    /// Willingness to pay at creation.
    pub initial_wtp: u64,
}

/// The fields that no behavioural update touches.
pub open spec fn same_identity(a: Customer, b: Customer) -> bool {
    &&& a.id == b.id
    &&& a.group == b.group
    &&& a.predicted_group == b.predicted_group
    &&& a.max_wtp == b.max_wtp
    &&& a.initial_wtp == b.initial_wtp
    &&& a.neighbors@ == b.neighbors@
    &&& a.price_hist@ == b.price_hist@
}

impl Customer {
    /// A fresh customer: every reference price anchored at the sampled
    /// willingness to pay, no purchases yet.
    pub fn new(
        id: usize,
        group: usize,
        predicted_group: usize,
        wtp: u64,
        max_wtp: u64,
        neighbors: Vec<usize>,
    ) -> (c: Customer)
        ensures
            c.id == id,
            c.group == group,
            c.predicted_group == predicted_group,
            c.irp == wtp,
            c.erp == wtp,
            c.rp == wtp,
            c.wtp == wtp,
            c.max_wtp == max_wtp,
            c.initial_wtp == wtp,
            c.price_hist@ == Seq::<u64>::empty(),
            c.neighbors@ == neighbors@,
    {
        let c = Customer {
            id,
            group,
            predicted_group,
            irp: wtp,
            erp: wtp,
            rp: wtp,
            wtp,
            max_wtp,
            price_hist: Vec::new(),
            neighbors,
            initial_wtp: wtp,
        };
        proof {
            assert(c.price_hist@ =~= Seq::<u64>::empty());
        }
        c
    }

    /// Anchors the internal reference price towards the price just
    /// offered, by exponential smoothing with speed `tau`.
    pub fn update_irp(&mut self, new_price: u64, tau: Ratio)
        requires
            tau.is_prob(),
        ensures
            same_identity(*old(self), *final(self)),
            final(self).irp == blend(tau, new_price as int, old(self).irp as int),
            final(self).erp == old(self).erp,
            final(self).rp == old(self).rp,
            final(self).wtp == old(self).wtp,
    {
        let num = tau.num as u128;
        let rest = (tau.den - tau.num) as u128;
        proof {
            lemma_mul_bounds(num as int, new_price as int, u32::MAX as int, u64::MAX as int);
            lemma_mul_bounds(rest as int, self.irp as int, u32::MAX as int, u64::MAX as int);
        }
        let v = (num * (new_price as u128) + rest * (self.irp as u128)) / (tau.den as u128);
        proof {
            lemma_blend_bound(tau, new_price as int, self.irp as int, u64::MAX as int);
        }
        self.irp = v as u64;
    }

    /// Replaces the external reference price by the mean of the gathered
    /// reference signals; with no signal available, it falls back to the
    /// customer's own willingness to pay.
    pub fn update_erp(&mut self, signals: &Vec<u64>)
        ensures
            same_identity(*old(self), *final(self)),
            signals@.len() > 0 ==> final(self).erp == sum_u64(signals@) / signals@.len() as int,
            signals@.len() == 0 ==> final(self).erp == old(self).wtp,
            final(self).irp == old(self).irp,
            final(self).rp == old(self).rp,
            final(self).wtp == old(self).wtp,
    {
        let n = signals.len();
        if n == 0 {
            self.erp = self.wtp;
            return ;
        }
        let mut sum: u128 = 0;
        let mut i: usize = 0;
        while i < n
            invariant
                0 <= i <= n,
                n == signals@.len(),
                sum == sum_u64(signals@.take(i as int)),
            decreases n - i,
        {
            proof {
                assert(signals@.take(i + 1).drop_last() =~= signals@.take(i as int));
                lemma_sum_u64_bounds(signals@.take(i as int));
                assert(i * u64::MAX + u64::MAX < u128::MAX) by (nonlinear_arith)
                    requires
                        0 <= i < u64::MAX,
                ;
            }
            sum = sum + signals[i] as u128;
            i = i + 1;
        }
        proof {
            assert(signals@.take(n as int) =~= signals@);
            lemma_sum_u64_bounds(signals@);
            lemma_avg_bound(sum as int, n as int, u64::MAX as int);
        }
        let avg = sum / (n as u128);
        self.erp = avg as u64;
    }

    /// Combines the reference prices asymmetrically: a higher external
    /// price is ignored in favour of the internal anchor; otherwise the
    /// two are blended with weight `eta`.
    pub fn update_rp(&mut self, eta: Ratio)
        requires
            eta.is_prob(),
        ensures
            same_identity(*old(self), *final(self)),
            old(self).erp > old(self).irp ==> final(self).rp == old(self).irp,
            old(self).erp <= old(self).irp ==> final(self).rp == blend(
                eta,
                old(self).erp as int,
                old(self).irp as int,
            ),
            final(self).irp == old(self).irp,
            final(self).erp == old(self).erp,
            final(self).wtp == old(self).wtp,
    {
        if self.erp > self.irp {
            self.rp = self.irp;
        } else {
            let num = eta.num as u128;
            let rest = (eta.den - eta.num) as u128;
            proof {
                lemma_mul_bounds(num as int, self.erp as int, u32::MAX as int, u64::MAX as int);
                lemma_mul_bounds(rest as int, self.irp as int, u32::MAX as int, u64::MAX as int);
            }
            let v = (num * (self.erp as u128) + rest * (self.irp as u128)) / (eta.den as u128);
            proof {
                lemma_blend_bound(eta, self.erp as int, self.irp as int, u64::MAX as int);
            }
            self.rp = v as u64;
        }
    }

    /// Adjusts willingness to pay towards the reference price, prospect
    /// style: a gain (reference above willingness) is added as the given
    /// `shift`; a loss is subtracted as `shift` amplified by `lambda`.
    /// The result saturates at the ends of the representable range.
    pub fn update_wtp(&mut self, lambda: Ratio, shift: u64)
        requires
            lambda.wf(),
        ensures
            same_identity(*old(self), *final(self)),
            old(self).rp > old(self).wtp ==> final(self).wtp == (if old(self).wtp + shift
                <= u64::MAX {
                old(self).wtp + shift
            } else {
                u64::MAX as int
            }),
            old(self).rp <= old(self).wtp ==> final(self).wtp == (if ratio_mul(
                lambda,
                shift as int,
            ) <= old(self).wtp {
                old(self).wtp - ratio_mul(lambda, shift as int)
            } else {
                0
            }),
            final(self).irp == old(self).irp,
            final(self).erp == old(self).erp,
            final(self).rp == old(self).rp,
    {
        if self.rp > self.wtp {
            if shift <= u64::MAX - self.wtp {
                self.wtp = self.wtp + shift;
            } else {
                self.wtp = u64::MAX;
            }
        } else {
            proof {
                lemma_mul_bounds(lambda.num as int, shift as int, u32::MAX as int, u64::MAX as int);
            }
            let dec = ((lambda.num as u128) * (shift as u128)) / (lambda.den as u128);
            proof {
                vstd::arithmetic::div_mod::lemma_div_pos_is_pos(
                    lambda.num as int * shift as int,
                    lambda.den as int,
                );
            }
            if dec <= self.wtp as u128 {
                self.wtp = self.wtp - (dec as u64);
            } else {
                self.wtp = 0;
            }
        }
    }

    /// Appends the price the customer just paid to their purchase
    /// history. Purchase is terminal, so this happens at most once.
    pub fn record_purchase(&mut self, price: u64)
        ensures
            final(self).price_hist@ == old(self).price_hist@.push(price),
            final(self).id == old(self).id,
            final(self).group == old(self).group,
            final(self).predicted_group == old(self).predicted_group,
            final(self).irp == old(self).irp,
            final(self).erp == old(self).erp,
            final(self).rp == old(self).rp,
            final(self).wtp == old(self).wtp,
            final(self).max_wtp == old(self).max_wtp,
            final(self).initial_wtp == old(self).initial_wtp,
            final(self).neighbors@ == old(self).neighbors@,
    {
        self.price_hist.push(price);
    }

    /// Draws the time of the customer's next visit after `t`: visits
    /// recur faster when the last offered price was close to willingness
    /// to pay. The result never precedes `t` and saturates at the end of
    /// representable time.
    pub fn next_visit<M: StochasticModel>(&self, model: &mut M, t: u64, price: u64) -> (r: u64)
        ensures
            r >= t,
    {
        let delay = model.visit_delay(self.wtp, price);
        if delay <= u64::MAX - t {
            t + delay
        } else {
            u64::MAX
        }
    }
}

} // verus!
