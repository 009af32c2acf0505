//! The event calendar: a time-ordered queue of pending customer visits.
//!
//! The storage is an outside priority queue keyed by customer id, so a
//! customer has at most one pending visit by construction. The queue pops
//! its greatest priority; the calendar stores `u64::MAX - t` as the
//! priority of a visit at time `t`, so popping yields the earliest visit.

use vstd::prelude::*;

verus! {

/// The pending visits held by a [`VisitQueue`], as a map from customer id
/// to that customer's stored priority.
pub uninterp spec fn queue_entries(q: VisitQueue) -> Map<u64, u64>;

/// The contents of a queue that holds nothing.
pub open spec fn no_pending() -> Map<u64, u64> {
    Map::empty()
}

/// Holds the outside priority queue; Verus sees it only through
/// [`queue_entries`] and the trusted methods below.
#[verifier::external_body]
pub struct VisitQueue {
    inner: priority_queue::PriorityQueue<u64, u64>,
}

impl VisitQueue {
    /// Relies on `priority_queue::PriorityQueue::new`: creates an empty
    /// queue.
    #[verifier::external_body]
    fn new() -> (r: VisitQueue)
        ensures
            queue_entries(r) == no_pending(),
    {
        VisitQueue { inner: priority_queue::PriorityQueue::new() }
    }

    /// Relies on `priority_queue::PriorityQueue::push`: inserts the item
    /// with the given priority; if the item is already present, only its
    /// priority is updated.
    #[verifier::external_body]
    fn push(&mut self, item: u64, priority: u64)
        ensures
            queue_entries(*final(self)) == queue_entries(*old(self)).insert(item, priority),
    {
        self.inner.push(item, priority);
    }

    /// Relies on `priority_queue::PriorityQueue::pop`: removes and returns
    /// an item with the greatest priority, or `None` exactly when the
    /// queue is empty. Ties are broken arbitrarily.
    #[verifier::external_body]
    fn pop(&mut self) -> (r: Option<(u64, u64)>)
        ensures
            (match r {
                None => {
                    &&& queue_entries(*old(self)) == no_pending()
                    &&& queue_entries(*final(self)) == queue_entries(*old(self))
                },
                Some((item, priority)) => {
                    &&& queue_entries(*old(self)).dom().contains(item)
                    &&& queue_entries(*old(self))[item] == priority
                    &&& forall|i: u64|
                        queue_entries(*old(self)).dom().contains(i) ==> queue_entries(
                            *old(self),
                        )[i] <= priority
                    &&& queue_entries(*final(self)) == queue_entries(*old(self)).remove(item)
                },
            }),
    {
        self.inner.pop()
    }

    /// Relies on `priority_queue::PriorityQueue::len`: the number of
    /// items in the queue.
    #[verifier::external_body]
    fn len(&self) -> (n: usize)
        ensures
            n == queue_entries(*self).dom().len(),
    {
        self.inner.len()
    }
}

/// A min-priority calendar of pending customer visits, keyed by timestamp.
///
/// Entries are transient: once popped, gone; a rescheduled visit is pushed
/// as a new entry.
pub struct EventCalendar {
    q: VisitQueue,
}

impl EventCalendar {
    /// The pending visits: customer id to scheduled time.
    pub closed spec fn entries(self) -> Map<u64, u64> {
        Map::new(
            |c: u64| queue_entries(self.q).dom().contains(c),
            |c: u64| (u64::MAX - queue_entries(self.q)[c]) as u64,
        )
    }

    /// The calendar's bookkeeping is intact (its entry set is finite).
    pub closed spec fn wf(self) -> bool {
        queue_entries(self.q).dom().finite()
    }

    pub fn new() -> (c: EventCalendar)
        ensures
            c.wf(),
            c.entries() == Map::<u64, u64>::empty(),
    {
        let c = EventCalendar { q: VisitQueue::new() };
        proof {
            assert(c.entries() =~= Map::<u64, u64>::empty());
        }
        c
    }

    /// Schedules a visit of `customer` at time `t`, replacing any pending
    /// visit of the same customer.
    pub fn push(&mut self, customer: u64, t: u64)
        requires
            old(self).wf(),
        ensures
            final(self).wf(),
            final(self).entries() == old(self).entries().insert(customer, t),
    {
        let p = u64::MAX - t;
        self.q.push(customer, p);
        proof {
            assert(self.entries() =~= old(self).entries().insert(customer, t));
        }
    }

    /// Removes and returns an earliest pending visit as `(customer, t)`,
    /// or `None` exactly when the calendar is empty. Among simultaneous
    /// visits the choice is arbitrary.
    pub fn pop_earliest(&mut self) -> (r: Option<(u64, u64)>)
        requires
            old(self).wf(),
        ensures
            final(self).wf(),
            (match r {
                None => {
                    &&& old(self).entries() == Map::<u64, u64>::empty()
                    &&& final(self).entries() == old(self).entries()
                },
                Some((customer, t)) => {
                    &&& old(self).entries().dom().contains(customer)
                    &&& old(self).entries()[customer] == t
                    &&& forall|c: u64|
                        old(self).entries().dom().contains(c) ==> t <= old(self).entries()[c]
                    &&& final(self).entries() == old(self).entries().remove(customer)
                },
            }),
    {
        let r = self.q.pop();
        match r {
            None => {
                proof {
                    assert(old(self).entries() =~= Map::<u64, u64>::empty());
                    assert(self.entries() =~= old(self).entries());
                }
                None
            },
            Some((customer, p)) => {
                let t = u64::MAX - p;
                proof {
                    assert(self.entries() =~= old(self).entries().remove(customer));
                    assert forall|c: u64| old(self).entries().dom().contains(c) implies t <= old(
                        self,
                    ).entries()[c] by {
                        assert(queue_entries(old(self).q)[c] <= p);
                    }
                }
                Some((customer, t))
            },
        }
    }

    /// The number of pending visits.
    pub fn len(&self) -> (n: usize)
        requires
            self.wf(),
        ensures
            n == self.entries().dom().len(),
    {
        let n = self.q.len();
        proof {
            assert(self.entries().dom() =~= queue_entries(self.q).dom());
        }
        n
    }
}

} // verus!
