//! The simulation driver: the event loop that pops visits in time order,
//! consults the pricing strategy, resolves outcomes, updates behavioural
//! state and reschedules, together with the population factory and the
//! accounting of the run's results.

use vstd::prelude::*;
use crate::calendar::EventCalendar;
use crate::customer::Customer;
use crate::event::{EventKind, SimulationEvent};
use crate::network_formation::{create_network, in_group, lemma_group_start_mono, group_start};
use crate::rng::coin;
use crate::settings::{ProblemSettings, TIME_SCALE};
use crate::strategy::{Algorithm, StochasticModel};

verus! {

/// The event records a sale.
pub open spec fn is_sold(e: SimulationEvent) -> bool {
    e.event == EventKind::Sold
}

/// The event records a quit.
pub open spec fn is_quit(e: SimulationEvent) -> bool {
    e.event == EventKind::Quit
}

/// Total revenue of a history: the sum of `price` over its sold events.
pub open spec fn revenue_of(s: Seq<SimulationEvent>) -> int
    decreases s.len(),
{
    if s.len() == 0 {
        0
    } else {
        revenue_of(s.drop_last()) + if is_sold(s.last()) {
            s.last().price as int
        } else {
            0
        }
    }
}

/// Total regret of a history: `adjusted_wtp` summed over quits, plus
/// `adjusted_wtp - price` summed over sales.
pub open spec fn regret_of(s: Seq<SimulationEvent>) -> int
    decreases s.len(),
{
    if s.len() == 0 {
        0
    } else {
        regret_of(s.drop_last()) + if is_quit(s.last()) {
            s.last().adjusted_wtp as int
        } else if is_sold(s.last()) {
            s.last().adjusted_wtp - s.last().price
        } else {
            0
        }
    }
}

/// Number of sold events in a history.
pub open spec fn count_sold(s: Seq<SimulationEvent>) -> int
    decreases s.len(),
{
    if s.len() == 0 {
        0
    } else {
        count_sold(s.drop_last()) + if is_sold(s.last()) {
            1int
        } else {
            0
        }
    }
}

/// Sum of the timestamps of the sold events of a history.
pub open spec fn sold_time_sum(s: Seq<SimulationEvent>) -> int
    decreases s.len(),
{
    if s.len() == 0 {
        0
    } else {
        sold_time_sum(s.drop_last()) + if is_sold(s.last()) {
            s.last().t as int
        } else {
            0
        }
    }
}

/// Timestamps never decrease along the history.
pub open spec fn sorted_times(s: Seq<SimulationEvent>) -> bool {
    forall|i: int, j: int| 0 <= i <= j < s.len() ==> s[i].t <= s[j].t
}

/// Some sold event of the history belongs to customer `c`.
pub open spec fn has_sold(s: Seq<SimulationEvent>, c: int) -> bool {
    exists|i: int| 0 <= i < s.len() && is_sold(#[trigger] s[i]) && s[i].customer == c
}

/// No customer id is attached to more than one sold event.
pub open spec fn no_dup_sold(s: Seq<SimulationEvent>) -> bool {
    forall|i: int, j: int|
        0 <= i < j < s.len() && is_sold(#[trigger] s[i]) && is_sold(#[trigger] s[j])
            ==> s[i].customer != s[j].customer
}

/// How appending one event changes each accounting function.
pub proof fn lemma_history_push(s: Seq<SimulationEvent>, e: SimulationEvent)
    ensures
        revenue_of(s.push(e)) == revenue_of(s) + if is_sold(e) {
            e.price as int
        } else {
            0
        },
        regret_of(s.push(e)) == regret_of(s) + if is_quit(e) {
            e.adjusted_wtp as int
        } else if is_sold(e) {
            e.adjusted_wtp - e.price
        } else {
            0
        },
        count_sold(s.push(e)) == count_sold(s) + if is_sold(e) {
            1int
        } else {
            0
        },
        sold_time_sum(s.push(e)) == sold_time_sum(s) + if is_sold(e) {
            e.t as int
        } else {
            0
        },
{
    assert(s.push(e).drop_last() =~= s);
    assert(s.push(e).last() == e);
}

/// Bounds of the accounting functions in terms of the number of events
/// and of sales.
pub proof fn lemma_history_bounds(s: Seq<SimulationEvent>)
    ensures
        0 <= count_sold(s) <= s.len(),
        0 <= revenue_of(s) <= count_sold(s) * u64::MAX,
        0 <= sold_time_sum(s) <= count_sold(s) * u64::MAX,
        -(s.len() * u64::MAX) <= regret_of(s) <= s.len() * u64::MAX,
    decreases s.len(),
{
    if s.len() == 0 {
    } else {
        lemma_history_bounds(s.drop_last());
        let cs = count_sold(s.drop_last());
        assert(cs * u64::MAX + u64::MAX == (cs + 1) * u64::MAX) by (nonlinear_arith);
        assert((s.len() - 1) * u64::MAX + u64::MAX == s.len() * u64::MAX) by (nonlinear_arith);
        assert(0 <= cs ==> cs * u64::MAX <= (cs + 1) * u64::MAX) by (nonlinear_arith);
    }
}

/// Appending an event that is not a sale changes neither which customers
/// have purchased nor the uniqueness of sales.
pub proof fn lemma_push_not_sold(s: Seq<SimulationEvent>, e: SimulationEvent)
    requires
        !is_sold(e),
    ensures
        forall|x: int| has_sold(s.push(e), x) <==> has_sold(s, x),
        no_dup_sold(s) ==> no_dup_sold(s.push(e)),
{
    assert forall|x: int| has_sold(s.push(e), x) implies has_sold(s, x) by {
        let i = choose|i: int|
            0 <= i < s.push(e).len() && is_sold(#[trigger] s.push(e)[i]) && s.push(e)[i].customer
                == x;
        assert(i < s.len());
        assert(is_sold(s[i]) && s[i].customer == x);
    }
    assert forall|x: int| has_sold(s, x) implies has_sold(s.push(e), x) by {
        let i = choose|i: int|
            0 <= i < s.len() && is_sold(#[trigger] s[i]) && s[i].customer == x;
        assert(is_sold(s.push(e)[i]) && s.push(e)[i].customer == x);
    }
    if no_dup_sold(s) {
        assert forall|i: int, j: int|
            0 <= i < j < s.push(e).len() && is_sold(#[trigger] s.push(e)[i]) && is_sold(
                #[trigger] s.push(e)[j],
            ) implies s.push(e)[i].customer != s.push(e)[j].customer by {
            assert(j < s.len());
            assert(is_sold(s[i]) && is_sold(s[j]));
        }
    }
}

/// Appending a sale of a customer who has not purchased keeps sales
/// unique, and extends the purchasing set by exactly that customer.
pub proof fn lemma_push_sold(s: Seq<SimulationEvent>, e: SimulationEvent)
    requires
        is_sold(e),
        no_dup_sold(s),
        !has_sold(s, e.customer as int),
    ensures
        no_dup_sold(s.push(e)),
        forall|x: int| has_sold(s.push(e), x) <==> (has_sold(s, x) || x == e.customer),
{
    assert forall|x: int| has_sold(s.push(e), x) implies (has_sold(s, x) || x == e.customer) by {
        let i = choose|i: int|
            0 <= i < s.push(e).len() && is_sold(#[trigger] s.push(e)[i]) && s.push(e)[i].customer
                == x;
        if i < s.len() {
            assert(is_sold(s[i]) && s[i].customer == x);
        } else {
            assert(s.push(e)[i] == e);
        }
    }
    assert forall|x: int| (has_sold(s, x) || x == e.customer) implies has_sold(s.push(e), x) by {
        if has_sold(s, x) {
            let i = choose|i: int|
                0 <= i < s.len() && is_sold(#[trigger] s[i]) && s[i].customer == x;
            assert(is_sold(s.push(e)[i]) && s.push(e)[i].customer == x);
        } else {
            assert(is_sold(s.push(e)[s.len() as int]) && s.push(e)[s.len() as int].customer == x);
        }
    }
    assert forall|i: int, j: int|
        0 <= i < j < s.push(e).len() && is_sold(#[trigger] s.push(e)[i]) && is_sold(
            #[trigger] s.push(e)[j],
        ) implies s.push(e)[i].customer != s.push(e)[j].customer by {
        if j == s.len() {
            assert(is_sold(s[i]) && s[i].customer == s.push(e)[i].customer);
            if s.push(e)[i].customer == e.customer {
                assert(has_sold(s, e.customer as int));
            }
        } else {
            assert(is_sold(s[i]) && is_sold(s[j]));
        }
    }
}

/// Appending an event no earlier than everything recorded keeps the
/// history sorted.
pub proof fn lemma_push_sorted(s: Seq<SimulationEvent>, e: SimulationEvent)
    requires
        sorted_times(s),
        forall|i: int| 0 <= i < s.len() ==> (#[trigger] s[i]).t <= e.t,
    ensures
        sorted_times(s.push(e)),
{
}

/// Numeric ceilings on the accounting of a history of bounded length:
/// every accumulator of the driver fits its machine type.
pub proof fn lemma_driver_bounds(s: Seq<SimulationEvent>, cap: int)
    requires
        s.len() <= cap,
        0 <= cap <= 0x2_0000_0000,
    ensures
        0 <= count_sold(s) <= cap,
        0 <= revenue_of(s) <= 0x2_0000_0000 * (u64::MAX as int),
        0 <= sold_time_sum(s) <= 0x2_0000_0000 * (u64::MAX as int),
        -(0x2_0000_0000 * (u64::MAX as int)) <= regret_of(s) <= 0x2_0000_0000 * (
        u64::MAX as int),
{
    lemma_history_bounds(s);
    assert(count_sold(s) * u64::MAX <= 0x2_0000_0000 * (u64::MAX as int)) by (nonlinear_arith)
        requires
            0 <= count_sold(s) <= s.len() <= cap <= 0x2_0000_0000,
    ;
    assert(s.len() * u64::MAX <= 0x2_0000_0000 * (u64::MAX as int)) by (nonlinear_arith)
        requires
            0 <= s.len() <= cap <= 0x2_0000_0000,
    ;
}

/// Everything a finished run produces: the accumulated statistics, the
/// full ordered event history, and the final customer states.
///
/// `n_sold` is the number of customers that purchased; the sold fraction
/// is `n_sold` over `customers.len()`. `avg_time_sold_at` is `None`
/// exactly when nobody purchased: the defined sentinel for an undefined
/// average.
#[derive(Clone, Debug)]
pub struct SimulationResult {
    /// Cumulative regret, in milli-units (may be negative: a sale above
    /// the adjusted willingness to pay counts against it).
    pub regret: i128,
    /// Number of customers that purchased.
    pub n_sold: usize,
    /// Mean timestamp of the sales, in time units; `None` when there was
    /// no sale.
    pub avg_time_sold_at: Option<u64>,
    /// The full ordered event history.
    pub event_history: Vec<SimulationEvent>,
    /// Total revenue: the sum of the accepted prices, in milli-units.
    pub revenue: u128,
    /// `regret` divided by the population size, rounded towards zero.
    pub avg_regret: i128,
    /// The final state of every customer.
    pub customers: Vec<Customer>,
}

/// The per-customer facts the driver relies on: ids are indices, every
/// neighbour id names an existing customer.
pub open spec fn population_wf(customers: Seq<Customer>, n: int) -> bool {
    &&& customers.len() == n
    &&& forall|i: int| 0 <= i < n ==> (#[trigger] customers[i]).id == i
    &&& forall|i: int, j: int|
        0 <= i < n && 0 <= j < customers[i].neighbors@.len()
            ==> (#[trigger] customers[i].neighbors@[j]) < n
}

/// Samples the customer population: each customer is bound to their
/// network node, assigned a sampled willingness to pay around their
/// group's scaled mean, and a predicted group that is correct with the
/// configured clustering accuracy.
pub fn build_population<M: StochasticModel>(
    settings: &ProblemSettings,
    network: &Vec<Vec<usize>>,
    model: &mut M,
) -> (customers: Vec<Customer>)
    requires
        settings.wf(),
        network@.len() == settings.n_customers,
        crate::network_formation::valid_entries(network@, settings.n_customers as int),
    ensures
        population_wf(customers@, settings.n_customers as int),
        forall|i: int|
            0 <= i < customers@.len() ==> (#[trigger] customers@[i]).neighbors@ == network@[i]@,
        forall|i: int|
            0 <= i < customers@.len() ==> (#[trigger] customers@[i]).price_hist@.len() == 0,
        forall|i: int|
            0 <= i < customers@.len() ==> (#[trigger] customers@[i]).predicted_group
                < settings.num_predicted_groups,
        forall|g: int, i: int|
            #![trigger in_group(settings.group_sizes@, g, i), customers@[i]]
            0 <= g < settings.group_sizes@.len() && 0 <= i < customers@.len() && in_group(
                settings.group_sizes@,
                g,
                i,
            ) ==> customers@[i].group == g,
        settings.clustering_accuracy.is_one() ==> forall|i: int|
            0 <= i < customers@.len() && (#[trigger] customers@[i]).group
                < settings.num_predicted_groups ==> customers@[i].predicted_group
                == customers@[i].group,
        forall|i: int|
            0 <= i < customers@.len() ==> {
                let c = #[trigger] customers@[i];
                c.irp == c.wtp && c.erp == c.wtp && c.rp == c.wtp && c.initial_wtp == c.wtp
                    && c.max_wtp == (if 2 * c.wtp <= u64::MAX {
                    2 * c.wtp as int
                } else {
                    u64::MAX as int
                })
            },
{
    let n_groups = settings.group_sizes.len();
    let ghost sizes = settings.group_sizes@;
    let mut customers: Vec<Customer> = Vec::new();
    let mut id: usize = 0;
    let mut g: usize = 0;
    proof {
        assert(sizes.take(0) =~= Seq::<usize>::empty());
    }
    while g < n_groups
        invariant
            settings.wf(),
            n_groups == sizes.len(),
            sizes == settings.group_sizes@,
            network@.len() == settings.n_customers,
            crate::network_formation::valid_entries(network@, settings.n_customers as int),
            0 <= g <= n_groups,
            id == group_start(sizes, g as int),
            id == customers@.len(),
            id <= settings.n_customers,
            forall|i: int| 0 <= i < id ==> (#[trigger] customers@[i]).id == i,
            forall|i: int|
                0 <= i < id ==> (#[trigger] customers@[i]).neighbors@ == network@[i]@,
            forall|i: int|
                0 <= i < id ==> (#[trigger] customers@[i]).price_hist@.len() == 0,
            forall|i: int|
                0 <= i < id ==> (#[trigger] customers@[i]).predicted_group
                    < settings.num_predicted_groups,
            forall|g2: int, i: int|
                #![trigger in_group(sizes, g2, i), customers@[i]]
                0 <= g2 < sizes.len() && 0 <= i < id && in_group(sizes, g2, i)
                    ==> customers@[i].group == g2,
            settings.clustering_accuracy.is_one() ==> forall|i: int|
                0 <= i < id && (#[trigger] customers@[i]).group < settings.num_predicted_groups
                    ==> customers@[i].predicted_group == customers@[i].group,
            forall|i: int|
                0 <= i < id ==> {
                    let c = #[trigger] customers@[i];
                    c.irp == c.wtp && c.erp == c.wtp && c.rp == c.wtp && c.initial_wtp == c.wtp
                        && c.max_wtp == (if 2 * c.wtp <= u64::MAX {
                        2 * c.wtp as int
                    } else {
                        u64::MAX as int
                    })
                },
        decreases n_groups - g,
    {
        let group_size = settings.group_sizes[g];
        let group_mean = settings.group_means[g];
        let mean = group_mean * settings.scaling;
        let ghost gs = group_start(sizes, g as int);
        proof {
            assert(sizes.take(g + 1).drop_last() =~= sizes.take(g as int));
            assert(sizes.take(n_groups as int) =~= sizes);
            lemma_group_start_mono(sizes, g + 1, n_groups as int);
        }
        let mut j: usize = 0;
        while j < group_size
            invariant
                settings.wf(),
                n_groups == sizes.len(),
                sizes == settings.group_sizes@,
                network@.len() == settings.n_customers,
                crate::network_formation::valid_entries(network@, settings.n_customers as int),
                0 <= g < n_groups,
                group_size == sizes[g as int],
                0 <= j <= group_size,
                gs == group_start(sizes, g as int),
                gs + sizes[g as int] == group_start(sizes, g + 1),
                group_start(sizes, g + 1) <= settings.n_customers,
                id == gs + j,
                id == customers@.len(),
                id <= settings.n_customers,
                forall|i: int| 0 <= i < id ==> (#[trigger] customers@[i]).id == i,
                forall|i: int|
                    0 <= i < id ==> (#[trigger] customers@[i]).neighbors@ == network@[i]@,
                forall|i: int|
                    0 <= i < id ==> (#[trigger] customers@[i]).price_hist@.len() == 0,
                forall|i: int|
                    0 <= i < id ==> (#[trigger] customers@[i]).predicted_group
                        < settings.num_predicted_groups,
                forall|g2: int, i: int|
                    #![trigger in_group(sizes, g2, i), customers@[i]]
                    0 <= g2 < sizes.len() && 0 <= i < id && in_group(sizes, g2, i)
                        ==> customers@[i].group == g2,
                settings.clustering_accuracy.is_one() ==> forall|i: int|
                    0 <= i < id && (#[trigger] customers@[i]).group
                        < settings.num_predicted_groups ==> customers@[i].predicted_group
                        == customers@[i].group,
                forall|i: int|
                    0 <= i < id ==> {
                        let c = #[trigger] customers@[i];
                        c.irp == c.wtp && c.erp == c.wtp && c.rp == c.wtp && c.initial_wtp
                            == c.wtp && c.max_wtp == (if 2 * c.wtp <= u64::MAX {
                            2 * c.wtp as int
                        } else {
                            u64::MAX as int
                        })
                    },
            decreases group_size - j,
        {
            // The node's adjacency list, copied element by element.
            let mut neighbors: Vec<usize> = Vec::new();
            let row = &network[id];
            let mut e: usize = 0;
            while e < row.len()
                invariant
                    0 <= e <= row@.len(),
                    row == &network@[id as int],
                    id < network@.len(),
                    neighbors@ == network@[id as int]@.take(e as int),
                decreases row@.len() - e,
            {
                proof {
                    assert(network@[id as int]@.take(e + 1).drop_last() =~= network@[
                        id as int]@.take(e as int));
                }
                neighbors.push(row[e]);
                e = e + 1;
            }
            proof {
                assert(network@[id as int]@.take(row@.len() as int) =~= network@[id as int]@);
            }

            let wtp0 = model.draw_wtp(mean);
            let max_wtp = if wtp0 <= u64::MAX / 2 {
                2 * wtp0
            } else {
                u64::MAX
            };

            // With probability 1 - clustering_accuracy the prediction is
            // a uniformly random group.
            let acc = settings.clustering_accuracy;
            let predicted_group: usize = if coin(acc.den - acc.num, acc.den) {
                crate::rng::pick(0, settings.num_predicted_groups)
            } else {
                if g < settings.num_predicted_groups {
                    g
                } else {
                    crate::rng::pick(0, settings.num_predicted_groups)
                }
            };

            let c = Customer::new(id, g, predicted_group, wtp0, max_wtp, neighbors);
            customers.push(c);
            proof {
                assert forall|g2: int, i: int|
                    #![trigger in_group(sizes, g2, i), customers@[i]]
                    0 <= g2 < sizes.len() && 0 <= i < id + 1 && in_group(sizes, g2, i)
                        implies customers@[i].group == g2 by {
                    if i == id {
                        if g2 < g {
                            lemma_group_start_mono(sizes, g2 + 1, g as int);
                            assert(false);
                        } else if g2 > g {
                            assert(sizes.take(g2 + 1).drop_last() =~= sizes.take(g2 as int));
                            lemma_group_start_mono(sizes, g + 1, g2);
                            assert(false);
                        }
                    }
                }
            }
            id = id + 1;
            j = j + 1;
        }
        g = g + 1;
    }
    proof {
        assert(sizes.take(n_groups as int) =~= sizes);
    }
    customers
}

/// Seeds the event calendar with one initial arrival per customer, at a
/// randomly drawn first visit time.
pub fn init_simulation<M: StochasticModel>(customers: &Vec<Customer>, model: &mut M) -> (cal:
    EventCalendar)
    ensures
        cal.wf(),
        forall|c: u64| cal.entries().dom().contains(c) <==> c < customers@.len(),
{
    let mut cal = EventCalendar::new();
    let mut i: usize = 0;
    while i < customers.len()
        invariant
            0 <= i <= customers@.len(),
            cal.wf(),
            forall|c: u64| cal.entries().dom().contains(c) <==> c < i,
        decreases customers@.len() - i,
    {
        let t = customers[i].next_visit(model, 0, 0);
        cal.push(i as u64, t);
        i = i + 1;
    }
    cal
}

/// The last prices paid by the purchasing members of a neighbour list,
/// in list order.
pub open spec fn neighbor_last_prices(customers: Seq<Customer>, nbs: Seq<usize>) -> Seq<u64>
    decreases nbs.len(),
{
    if nbs.len() == 0 {
        Seq::empty()
    } else {
        let rest = neighbor_last_prices(customers, nbs.drop_last());
        let nb = nbs.last() as int;
        if 0 <= nb < customers.len() && customers[nb].price_hist@.len() > 0 {
            rest.push(customers[nb].price_hist@.last())
        } else {
            rest
        }
    }
}

/// `v` is the current willingness to pay of some customer other than `c`.
pub open spec fn is_wom_signal(customers: Seq<Customer>, c: int, v: u64) -> bool {
    exists|j: int| 0 <= j < customers.len() && j != c && (#[trigger] customers[j].wtp) == v
}

/// Gathers the reference-price signals that customer `c` sees: the last
/// paid price of each purchasing neighbour, then, with probability
/// `global_wom_prob` per other customer, that customer's current
/// willingness to pay (word-of-mouth leakage outside the network).
pub fn gather_reference_signals(
    c: usize,
    customers: &Vec<Customer>,
    settings: &ProblemSettings,
) -> (signals: Vec<u64>)
    requires
        settings.wf(),
        c < customers@.len(),
        forall|j: int|
            0 <= j < customers@[c as int].neighbors@.len()
                ==> (#[trigger] customers@[c as int].neighbors@[j]) < customers@.len(),
    ensures
        signals@.len() >= neighbor_last_prices(
            customers@,
            customers@[c as int].neighbors@,
        ).len(),
        signals@.take(
            neighbor_last_prices(customers@, customers@[c as int].neighbors@).len() as int,
        ) == neighbor_last_prices(customers@, customers@[c as int].neighbors@),
        forall|x: int|
            neighbor_last_prices(customers@, customers@[c as int].neighbors@).len() <= x
                < signals@.len() ==> is_wom_signal(customers@, c as int, #[trigger] signals@[x]),
        settings.global_wom_prob.is_zero() ==> signals@ == neighbor_last_prices(
            customers@,
            customers@[c as int].neighbors@,
        ),
{
    let mut signals: Vec<u64> = Vec::new();
    let ghost nbs = customers@[c as int].neighbors@;
    let n_neighbors = customers[c].neighbors.len();
    let mut k: usize = 0;
    while k < n_neighbors
        invariant
            c < customers@.len(),
            nbs == customers@[c as int].neighbors@,
            n_neighbors == nbs.len(),
            0 <= k <= n_neighbors,
            forall|j: int| 0 <= j < nbs.len() ==> (#[trigger] nbs[j]) < customers@.len(),
            signals@ == neighbor_last_prices(customers@, nbs.take(k as int)),
        decreases n_neighbors - k,
    {
        proof {
            assert(nbs.take(k + 1).drop_last() =~= nbs.take(k as int));
        }
        let nb = customers[c].neighbors[k];
        let hist_len = customers[nb].price_hist.len();
        if hist_len > 0 {
            signals.push(customers[nb].price_hist[hist_len - 1]);
        }
        k = k + 1;
    }
    proof {
        assert(nbs.take(n_neighbors as int) =~= nbs);
    }
    let ghost base = neighbor_last_prices(customers@, nbs);

    let wom = settings.global_wom_prob;
    let mut j: usize = 0;
    while j < customers.len()
        invariant
            settings.wf(),
            wom == settings.global_wom_prob,
            c < customers@.len(),
            nbs == customers@[c as int].neighbors@,
            base == neighbor_last_prices(customers@, nbs),
            0 <= j <= customers@.len(),
            signals@.len() >= base.len(),
            signals@.take(base.len() as int) == base,
            forall|x: int|
                base.len() <= x < signals@.len() ==> is_wom_signal(
                    customers@,
                    c as int,
                    #[trigger] signals@[x],
                ),
            wom.is_zero() ==> signals@ == base,
        decreases customers@.len() - j,
    {
        if j != c {
            if coin(wom.num, wom.den) {
                let ghost before = signals@;
                signals.push(customers[j].wtp);
                proof {
                    assert(signals@.take(base.len() as int) =~= before.take(base.len() as int));
                    assert forall|x: int| base.len() <= x < signals@.len() implies is_wom_signal(
                        customers@,
                        c as int,
                        #[trigger] signals@[x],
                    ) by {
                        if x < before.len() {
                            assert(signals@[x] == before[x]);
                        } else {
                            assert(signals@[x] == customers@[j as int].wtp);
                            assert(0 <= j < customers@.len() && j != c && customers@[
                                j as int].wtp == signals@[x]);
                        }
                    }
                }
            }
        }
        j = j + 1;
    }
    signals
}

/// Runs one full market simulation: builds the network and population,
/// seeds the calendar, and resolves visits in time order until the
/// calendar empties or the event budget is exhausted.
///
/// Whatever prices the strategy proposes and whatever the stochastic
/// model draws, the returned accounting is exact: revenue is the sum of
/// the sold prices, regret the sum of the missed and conceded surpluses,
/// the history is in time order and within the horizon, no customer buys
/// twice, and the average time of sale is `None` exactly when nothing
/// was sold.
pub fn simulate_revenue<A: Algorithm, M: StochasticModel>(
    algorithm: &mut A,
    model: &mut M,
    settings: &ProblemSettings,
) -> (result: SimulationResult)
    requires
        settings.wf(),
    ensures
        result.customers@.len() == settings.n_customers,
        population_wf(result.customers@, settings.n_customers as int),
        forall|i: int|
            0 <= i < result.customers@.len() ==> (#[trigger] result.customers@[
            i]).price_hist@.len() <= 1,
        result.revenue == revenue_of(result.event_history@),
        result.regret == regret_of(result.event_history@),
        result.n_sold == count_sold(result.event_history@),
        result.n_sold <= result.customers@.len(),
        sorted_times(result.event_history@),
        no_dup_sold(result.event_history@),
        forall|i: int|
            0 <= i < result.event_history@.len() ==> (#[trigger] result.event_history@[i]).t
                <= settings.spec_horizon(),
        forall|i: int|
            0 <= i < result.event_history@.len() ==> (#[trigger] result.event_history@[
            i]).customer < settings.n_customers,
        (result.n_sold == 0) <==> (result.avg_time_sold_at is None),
        result.n_sold > 0 ==> result.avg_time_sold_at == Some(
            (sold_time_sum(result.event_history@) / (result.n_sold as int)) as u64,
        ),
        result.customers@.len() == 0 ==> result.avg_regret == 0,
        result.customers@.len() > 0 && result.regret >= 0 ==> result.avg_regret == (
        result.regret as int) / (result.customers@.len() as int),
        result.customers@.len() > 0 && result.regret < 0 ==> result.avg_regret == -((-(
        result.regret as int)) / (result.customers@.len() as int)),
{
    let n = settings.n_customers;
    let network = create_network(settings);
    let mut customers = build_population(settings, &network, model);
    let mut event_calendar = init_simulation(&customers, model);

    // Price offered at each customer's previous visit (0 before any).
    let mut last_price: Vec<u64> = Vec::new();
    while last_price.len() < n
        invariant
            last_price@.len() <= n,
        decreases n - last_price@.len(),
    {
        last_price.push(0);
    }

    let mut revenue: u128 = 0;
    let mut regret: i128 = 0;
    let mut n_sold: usize = 0;
    let mut sold_time_total: u128 = 0;
    let mut event_count: u64 = 0;
    let mut event_history: Vec<SimulationEvent> = Vec::new();
    let ghost mut now: u64 = 0;
    let ghost mut sold_set: Set<int> = Set::empty();

    let horizon = settings.horizon();

    loop
        invariant
            settings.wf(),
            n == settings.n_customers,
            horizon == settings.spec_horizon(),
            population_wf(customers@, n as int),
            forall|i: int|
                0 <= i < n ==> (#[trigger] customers@[i]).price_hist@.len() == (if has_sold(
                    event_history@,
                    i,
                ) {
                    1int
                } else {
                    0int
                }),
            last_price@.len() == n,
            event_calendar.wf(),
            forall|cu: u64|
                #[trigger] event_calendar.entries().dom().contains(cu) ==> (cu as int) < n,
            forall|cu: u64|
                #[trigger] event_calendar.entries().dom().contains(cu)
                    ==> event_calendar.entries()[cu] >= now,
            forall|cu: u64|
                #[trigger] event_calendar.entries().dom().contains(cu) ==> !has_sold(
                    event_history@,
                    cu as int,
                ),
            sorted_times(event_history@),
            forall|i: int|
                0 <= i < event_history@.len() ==> (#[trigger] event_history@[i]).t <= now,
            forall|i: int|
                0 <= i < event_history@.len() ==> (#[trigger] event_history@[i]).t <= horizon,
            forall|i: int|
                0 <= i < event_history@.len() ==> (#[trigger] event_history@[i]).customer < n,
            revenue == revenue_of(event_history@),
            regret == regret_of(event_history@),
            n_sold == count_sold(event_history@),
            sold_time_total == sold_time_sum(event_history@),
            no_dup_sold(event_history@),
            forall|x: int| #[trigger] sold_set.contains(x) <==> has_sold(event_history@, x),
            forall|x: int| #[trigger] sold_set.contains(x) ==> 0 <= x < n,
            sold_set.finite(),
            sold_set.len() == n_sold,
            event_history@.len() <= 2 * event_count,
            event_count <= settings.max_events,
        ensures
            sorted_times(event_history@),
            forall|i: int|
                0 <= i < event_history@.len() ==> (#[trigger] event_history@[i]).t <= horizon,
            forall|i: int|
                0 <= i < event_history@.len() ==> (#[trigger] event_history@[i]).customer < n,
            revenue == revenue_of(event_history@),
            regret == regret_of(event_history@),
            n_sold == count_sold(event_history@),
            sold_time_total == sold_time_sum(event_history@),
            no_dup_sold(event_history@),
            forall|x: int| #[trigger] sold_set.contains(x) <==> has_sold(event_history@, x),
            forall|x: int| #[trigger] sold_set.contains(x) ==> 0 <= x < n,
            sold_set.finite(),
            sold_set.len() == n_sold,
            event_history@.len() <= 2 * event_count,
            event_count <= settings.max_events,
            population_wf(customers@, n as int),
            forall|i: int|
                0 <= i < n ==> (#[trigger] customers@[i]).price_hist@.len() == (if has_sold(
                    event_history@,
                    i,
                ) {
                    1int
                } else {
                    0int
                }),
        decreases settings.max_events - event_count,
    {
        if event_count >= settings.max_events {
            break ;
        }
        let popped = event_calendar.pop_earliest();
        match popped {
            None => {
                break ;
            },
            Some((cid, t)) => {
                event_count = event_count + 1;
                let ghost entries0 = event_calendar.entries();
                if t > horizon {
                    // Past the horizon: the visit is dropped. Later
                    // pops are no earlier, so they are dropped too.
                    proof {
                        now = t;
                    }
                } else {
                    let c = cid as usize;
                    let visit_index = customers[c].price_hist.len();
                    proof {
                        crate::settings::lemma_avg_bound(
                            t as int,
                            TIME_SCALE as int,
                            settings.n_periods as int,
                        );
                    }
                    let period = (t / TIME_SCALE) as usize;
                    let price = algorithm.get_price(
                        customers[c].predicted_group,
                        visit_index,
                        period,
                    );
                    // The seasonal modulation is disabled (zero
                    // amplitude): the adjusted willingness to pay is the
                    // current one.
                    let adjusted_wtp = customers[c].wtp;

                    let arrival = SimulationEvent::new(
                        &customers[c],
                        t,
                        EventKind::Arrival,
                        last_price[c],
                        adjusted_wtp,
                    );
                    let ghost h0 = event_history@;
                    event_history.push(arrival);
                    proof {
                        lemma_history_push(h0, arrival);
                        lemma_push_not_sold(h0, arrival);
                        lemma_push_sorted(h0, arrival);
                    }

                    if (price as u128) * 5 > (adjusted_wtp as u128) * 6 {
                        // Hard reject: the price is over 6/5 of the
                        // adjusted willingness to pay.
                        let quit_ev = SimulationEvent::new(
                            &customers[c],
                            t,
                            EventKind::Quit,
                            price,
                            adjusted_wtp,
                        );
                        let ghost h1 = event_history@;
                        proof {
                            lemma_driver_bounds(h1, 2 * settings.max_events as int);
                            lemma_history_push(h1, quit_ev);
                            lemma_push_not_sold(h1, quit_ev);
                            lemma_push_sorted(h1, quit_ev);
                        }
                        regret = regret + (adjusted_wtp as i128);
                        event_history.push(quit_ev);
                        algorithm.update_average_reward(
                            customers[c].predicted_group,
                            visit_index,
                            period,
                            0,
                            price,
                        );
                        proof {
                            now = t;
                        }
                    } else {
                        let bought = model.purchase_draw(
                            adjusted_wtp,
                            price,
                            settings.sigmoid_scale,
                        );
                        if bought {
                            let ghost h1 = event_history@;
                            proof {
                                lemma_driver_bounds(h1, 2 * settings.max_events as int);
                            }
                            revenue = revenue + (price as u128);
                            customers[c].record_purchase(price);
                            regret = regret + (adjusted_wtp as i128) - (price as i128);
                            proof {
                                vstd::set_lib::lemma_int_range(0, n as int);
                                assert(sold_set.subset_of(
                                    vstd::set_lib::set_int_range(0, n as int),
                                ));
                                vstd::set_lib::lemma_len_subset(
                                    sold_set,
                                    vstd::set_lib::set_int_range(0, n as int),
                                );
                            }
                            n_sold = n_sold + 1;
                            sold_time_total = sold_time_total + (t as u128);
                            algorithm.update_average_reward(
                                customers[c].predicted_group,
                                visit_index,
                                period,
                                price,
                                price,
                            );
                            let sold_ev = SimulationEvent::new(
                                &customers[c],
                                t,
                                EventKind::Sold,
                                price,
                                adjusted_wtp,
                            );
                            proof {
                                assert(!has_sold(h1, c as int));
                                lemma_history_push(h1, sold_ev);
                                lemma_push_sold(h1, sold_ev);
                                lemma_push_sorted(h1, sold_ev);
                            }
                            event_history.push(sold_ev);
                            proof {
                                assert(!sold_set.contains(c as int));
                                sold_set = sold_set.insert(c as int);
                            }
                        } else {
                            // Neither rejected nor bought: schedule the
                            // next visit; the strategy gets no feedback.
                            let next_t = customers[c].next_visit(model, t, last_price[c]);
                            event_calendar.push(cid, next_t);
                            last_price[c] = price;
                        }

                        // Behavioural update of the visited customer, in
                        // the fixed order of the model.
                        let signals = gather_reference_signals(c, &customers, settings);
                        customers[c].update_irp(price, settings.tau);
                        customers[c].update_erp(&signals);
                        customers[c].update_rp(settings.eta);
                        let d = if customers[c].rp > customers[c].wtp {
                            customers[c].rp - customers[c].wtp
                        } else {
                            customers[c].wtp - customers[c].rp
                        };
                        let shift = model.wtp_shift(d, settings.alpha);
                        customers[c].update_wtp(settings.lambda, shift);
                        proof {
                            now = t;
                        }
                    }
                }
            },
        }
    }

    let population = customers.len();
    let avg_time_sold_at = if n_sold == 0 {
        None
    } else {
        proof {
            lemma_history_bounds(event_history@);
            crate::settings::lemma_avg_bound(
                sold_time_total as int,
                n_sold as int,
                u64::MAX as int,
            );
        }
        Some((sold_time_total / (n_sold as u128)) as u64)
    };
    proof {
        lemma_driver_bounds(event_history@, 2 * settings.max_events as int);
        vstd::set_lib::lemma_int_range(0, n as int);
        assert(sold_set.subset_of(vstd::set_lib::set_int_range(0, n as int)));
        vstd::set_lib::lemma_len_subset(sold_set, vstd::set_lib::set_int_range(0, n as int));
    }
    let avg_regret: i128 = if population == 0 {
        0
    } else if regret >= 0 {
        ((regret as u128) / (population as u128)) as i128
    } else {
        -((((-regret) as u128) / (population as u128)) as i128)
    };
    SimulationResult {
        regret,
        n_sold,
        avg_time_sold_at,
        event_history,
        revenue,
        avg_regret,
        customers,
    }
}

} // verus!
