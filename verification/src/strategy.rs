//! The boundaries to externally supplied behaviour: pricing policies and
//! the stochastic kernels of the customer model.
//!
//! The engine is verified for every possible behaviour of these
//! implementations: neither trait promises anything about its results.

use vstd::prelude::*;
use crate::settings::Ratio;

verus! {

/// A pricing policy, plugged into the simulation driver.
///
/// Implementations (bandit learners, evolutionary individuals, swarm
/// particles, random candidates, static matrices) live outside the
/// engine; the engine only requires these two operations.
pub trait Algorithm {
    /// Proposes a price, in milli-units, for a visit of a customer of
    /// predicted group `group_id`, on their `visit`-th visit, in period
    /// `period`. Implementations may keep internal state but must not
    /// block.
    fn get_price(&mut self, group_id: usize, visit: usize, period: usize) -> u64;

    /// Feedback after a resolved visit: the reward earned (the price on a
    /// sale, `0` on a quit), in milli-units, at the offered price. The
    /// driver calls this only on the hard-reject and stochastic-accept
    /// branches, never when a visit is merely rescheduled.
    fn update_average_reward(
        &mut self,
        group_id: usize,
        visit: usize,
        period: usize,
        reward: u64,
        price: u64,
    );
}

/// The stochastic and transcendental kernels of the behavioural model:
/// every draw from a distribution, and the one non-rational curve of the
/// update rules. Keeping them behind this boundary makes the engine an
/// explicit function of their outcomes, so each run is verified for every
/// possible draw.
pub trait StochasticModel {
    /// Draws an initial willingness to pay, in milli-units, for a
    /// customer whose scaled group mean is `mean` (canonically a normal
    /// draw around `mean`).
    fn draw_wtp(&mut self, mean: u64) -> u64;

    /// Resolves the stochastic-accept branch: whether a customer with the
    /// given adjusted willingness to pay buys at `price` (canonically a
    /// uniform draw against a logistic function of the relative gap,
    /// sharpened by `sigmoid_scale`).
    fn purchase_draw(&mut self, adjusted_wtp: u64, price: u64, sigmoid_scale: u64) -> bool;

    /// Draws the delay, in time units, until the next visit of a customer
    /// with willingness to pay `wtp` last offered `price` (canonically an
    /// exponential draw whose rate grows as the price approaches `wtp`).
    fn visit_delay(&mut self, wtp: u64, price: u64) -> u64;

    /// The diminishing-sensitivity curve of the willingness-to-pay
    /// update: the magnitude, in milli-units, of the shift caused by a
    /// reference-price gap of `diff` (canonically `diff` raised to the
    /// exponent `alpha`, in fixed point).
    fn wtp_shift(&mut self, diff: u64, alpha: Ratio) -> u64;
}

/// Exploration mode of a multi-armed-bandit pricing policy.
#[derive(Clone, Copy, Debug, PartialEq, Eq, Structural)]
pub enum MABStrategy {
    EpsilonGreedy,
    UCB,
    DecayingEpsilonGreedy,
}

impl MABStrategy {
    /// A fixed human-readable name of the mode.
    pub fn label(&self) -> (s: &'static str)
        ensures
            (match self {
                MABStrategy::EpsilonGreedy => s@ == "EpsilonGreedy"@,
                MABStrategy::UCB => s@ == "UCB"@,
                MABStrategy::DecayingEpsilonGreedy => s@ == "DecayingEpsilonGreedy"@,
            }),
    {
        match self {
            MABStrategy::EpsilonGreedy => "EpsilonGreedy",
            MABStrategy::UCB => "UCB",
            MABStrategy::DecayingEpsilonGreedy => "DecayingEpsilonGreedy",
        }
    }
}

/// Survivor-selection scheme of an evolutionary pricing search.
#[derive(Clone, Copy, Debug, PartialEq, Eq, Structural)]
pub enum Selection {
    Comma,
    Plus,
}

/// Mutation-strength adaptation scheme of an evolutionary pricing search.
#[derive(Clone, Copy, Debug, PartialEq, Eq, Structural)]
pub enum Adaptation {
    RechenbergRule,
    NoAdaptation,
}

} // verus!
