//! A discrete-event market simulation engine for evaluating dynamic-pricing
//! policies.
//!
//! A population of customers, connected through a social-influence network,
//! responds over time to prices proposed by a pluggable pricing strategy.
//! The engine resolves each customer visit into a purchase, a quit, or a
//! later return, and accumulates revenue and regret statistics.
//!
//! All monetary quantities (prices, willingness to pay, reference prices)
//! are fixed-point integers in milli-units; simulation time is measured in
//! milli-periods (see [`settings::TIME_SCALE`]). Behavioural parameters that
//! are conceptually real numbers in the unit interval are exact rationals
//! ([`settings::Ratio`]).

pub mod calendar;
pub mod customer;
pub mod event;
pub mod network_formation;
pub mod rng;
pub mod settings;
pub mod simulation;
pub mod strategy;
