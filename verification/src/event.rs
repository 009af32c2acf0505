//! Immutable records of simulation occurrences.

use vstd::prelude::*;
use crate::customer::Customer;

verus! {

/// What happened at an instant of the simulation.
#[derive(Clone, Copy, Debug, PartialEq, Eq, Structural)]
pub enum EventKind {
    /// A customer arrived and awaits a pricing decision.
    Arrival,
    /// The customer bought at the offered price (terminal).
    Sold,
    /// The customer rejected an excessive price and left (terminal).
    Quit,
}

/// One occurrence: its time, kind, customer, and a snapshot of the
/// customer's monetary state at that instant. The snapshot serves
/// after-the-fact analysis, not engine logic.
#[derive(Clone, Copy, Debug, PartialEq, Eq, Structural)]
pub struct SimulationEvent {
    /// Timestamp, in time units.
    pub t: u64,
    /// Kind of occurrence.
    pub event: EventKind,
    /// Id of the customer concerned.
    pub customer: usize,
    /// The customer's willingness to pay, in milli-units.
    pub customer_wtp: u64,
    /// The customer's willingness-to-pay ceiling, in milli-units.
    pub customer_max_wtp: u64,
    /// Group the customer is predicted to belong to.
    pub predicted_group: usize,
    /// True group of the customer.
    pub actual_group: usize,
    /// Price concerned by the occurrence, in milli-units.
    pub price: u64,
    /// The customer's internal reference price, in milli-units.
    pub irp: u64,
    /// The customer's external reference price, in milli-units.
    pub erp: u64,
    /// The customer's blended reference price, in milli-units.
    pub rp: u64,
    /// The customer's time-adjusted willingness to pay, in milli-units.
    pub adjusted_wtp: u64,
}

impl SimulationEvent {
    /// Snapshots `customer` into an event record.
    pub fn new(customer: &Customer, t: u64, event: EventKind, price: u64, adjusted_wtp: u64) -> (e:
        SimulationEvent)
        ensures
            e.t == t,
            e.event == event,
            e.customer == customer.id,
            e.customer_wtp == customer.wtp,
            e.customer_max_wtp == customer.max_wtp,
            e.predicted_group == customer.predicted_group,
            e.actual_group == customer.group,
            e.price == price,
            e.irp == customer.irp,
            e.erp == customer.erp,
            e.rp == customer.rp,
            e.adjusted_wtp == adjusted_wtp,
    {
        SimulationEvent {
            t,
            event,
            customer: customer.id,
            customer_wtp: customer.wtp,
            customer_max_wtp: customer.max_wtp,
            predicted_group: customer.predicted_group,
            actual_group: customer.group,
            price,
            irp: customer.irp,
            erp: customer.erp,
            rp: customer.rp,
            adjusted_wtp,
        }
    }
}

} // verus!
