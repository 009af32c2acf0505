//! Construction of the social-influence network: per-group ring lattices
//! with small-world rewiring, plus random inter-group edges.

use vstd::prelude::*;
use crate::rng::{coin, pick};
use crate::settings::{sum_sizes, ProblemSettings};

verus! {

/// First customer index of group `g`: groups occupy contiguous ranges.
pub open spec fn group_start(sizes: Seq<usize>, g: int) -> int {
    sum_sizes(sizes.take(g))
}

/// Customer `i` belongs to group `g`.
pub open spec fn in_group(sizes: Seq<usize>, g: int, i: int) -> bool {
    group_start(sizes, g) <= i < group_start(sizes, g + 1)
}

/// Group boundaries are monotone in the group index.
pub proof fn lemma_group_start_mono(sizes: Seq<usize>, i: int, j: int)
    requires
        0 <= i <= j <= sizes.len(),
    ensures
        group_start(sizes, i) <= group_start(sizes, j),
    decreases j - i,
{
    if i < j {
        lemma_group_start_mono(sizes, i, j - 1);
        assert(sizes.take(j).drop_last() =~= sizes.take(j - 1));
    }
}

/// Group boundaries are non-negative.
pub proof fn lemma_group_start_nonneg(sizes: Seq<usize>, g: int)
    requires
        0 <= g <= sizes.len(),
    ensures
        group_start(sizes, g) >= 0,
{
    assert(sizes.take(0) =~= Seq::<usize>::empty());
    lemma_group_start_mono(sizes, 0, g);
}

/// The `j`-th neighbour of the node at offset `pos` of a ring lattice of
/// `size` nodes starting at index `start`: forward and backward
/// neighbours at distances `1..=k/2`, interleaved.
pub open spec fn ring_entry(start: int, size: int, pos: int, j: int) -> usize {
    if j % 2 == 0 {
        (start + (pos + (j / 2 + 1)) % size) as usize
    } else {
        (start + (pos + size - (j / 2 + 1)) % size) as usize
    }
}

/// The full neighbour list that the ring lattice of degree `k` gives the
/// node at offset `pos` of a group of `size` nodes starting at `start`.
pub open spec fn ring_neighbors(start: int, size: int, pos: int, k: int) -> Seq<usize> {
    Seq::new((2 * (k / 2)) as nat, |j: int| ring_entry(start, size, pos, j))
}

/// Every group's nodes below index `upto` carry exactly their ring-lattice
/// neighbour lists.
pub open spec fn ring_built_below(
    net: Seq<Vec<usize>>,
    sizes: Seq<usize>,
    k: int,
    upto: int,
) -> bool {
    forall|g: int, i: int|
        #![trigger in_group(sizes, g, i), net[i]]
        0 <= g < sizes.len() && 0 <= i < upto && in_group(sizes, g, i) ==> net[i]@ == ring_neighbors(
            group_start(sizes, g),
            sizes[g] as int,
            i - group_start(sizes, g),
            k,
        )
}

/// The network is exactly a ring lattice of degree `k_neighbors` within
/// each group partition.
pub open spec fn is_ring_lattice(net: Seq<Vec<usize>>, sizes: Seq<usize>, k: int) -> bool {
    ring_built_below(net, sizes, k, group_start(sizes, sizes.len() as int))
}

/// All neighbour lists name existing customers.
pub open spec fn valid_entries(net: Seq<Vec<usize>>, n: int) -> bool {
    forall|i: int, j: int|
        0 <= i < net.len() && 0 <= j < net[i]@.len() ==> (#[trigger] net[i]@[j]) < n
}

/// Nodes from index `from` on have no neighbours yet.
pub open spec fn empty_from(net: Seq<Vec<usize>>, from: int) -> bool {
    forall|i: int| from <= i < net.len() ==> (#[trigger] net[i])@.len() == 0
}

/// Builds the social-influence network over the customer population.
///
/// The structure is deterministic given the settings, the specific edges
/// are randomized: within each group a ring lattice of degree
/// `k_neighbors` whose edges are rewired with probability `p_intra` to a
/// uniform node of the same group, then, for every node and every other
/// group, with probability `p_inter` one bidirectional edge to a uniform
/// node of that group. Rewiring can break symmetry and duplicate edges;
/// neighbour lists are not sets. With both probabilities zero the result
/// is exactly the ring lattice.
pub fn create_network(settings: &ProblemSettings) -> (network: Vec<Vec<usize>>)
    requires
        settings.wf(),
    ensures
        network@.len() == settings.n_customers,
        valid_entries(network@, settings.n_customers as int),
        settings.p_intra.is_zero() && settings.p_inter.is_zero() ==> is_ring_lattice(
            network@,
            settings.group_sizes@,
            settings.k_neighbors as int,
        ),
{
    let n = settings.n_customers;
    let n_groups = settings.group_sizes.len();
    let ghost sizes = settings.group_sizes@;
    let ghost k = settings.k_neighbors as int;

    // Group boundaries: prefix sums of the group sizes.
    let mut group_starts: Vec<usize> = Vec::new();
    group_starts.push(0);
    let mut total: usize = 0;
    let mut g: usize = 0;
    proof {
        assert(sizes.take(0) =~= Seq::<usize>::empty());
    }
    while g < n_groups
        invariant
            settings.wf(),
            n == settings.n_customers,
            n_groups == sizes.len(),
            sizes == settings.group_sizes@,
            0 <= g <= n_groups,
            group_starts@.len() == g + 1,
            forall|j: int|
                0 <= j <= g ==> (#[trigger] group_starts@[j]) == group_start(sizes, j),
            total == group_start(sizes, g as int),
        decreases n_groups - g,
    {
        proof {
            assert(sizes.take(g + 1).drop_last() =~= sizes.take(g as int));
            assert(sizes.take(n_groups as int) =~= sizes);
            lemma_group_start_mono(sizes, g + 1, n_groups as int);
        }
        total = total + settings.group_sizes[g];
        group_starts.push(total);
        g = g + 1;
    }
    proof {
        assert(sizes.take(n_groups as int) =~= sizes);
    }

    // Empty adjacency lists.
    let mut network: Vec<Vec<usize>> = Vec::new();
    while network.len() < n
        invariant
            network@.len() <= n,
            empty_from(network@, 0),
        decreases n - network@.len(),
    {
        network.push(Vec::new());
    }

    // Ring lattice within each group.
    let half = settings.k_neighbors / 2;
    proof {
        assert(sizes.take(0) =~= Seq::<usize>::empty());
    }
    let mut g: usize = 0;
    while g < n_groups
        invariant
            settings.wf(),
            n == settings.n_customers,
            n_groups == sizes.len(),
            sizes == settings.group_sizes@,
            k == settings.k_neighbors as int,
            half == settings.k_neighbors / 2,
            group_starts@.len() == n_groups + 1,
            forall|j: int|
                0 <= j <= n_groups ==> (#[trigger] group_starts@[j]) == group_start(sizes, j),
            0 <= g <= n_groups,
            network@.len() == n,
            valid_entries(network@, n as int),
            ring_built_below(network@, sizes, k, group_start(sizes, g as int)),
            empty_from(network@, group_start(sizes, g as int)),
        decreases n_groups - g,
    {
        let gs = group_starts[g];
        let ge = group_starts[g + 1];
        let size = settings.group_sizes[g];
        proof {
            assert(sizes.take(g + 1).drop_last() =~= sizes.take(g as int));
            assert(sizes.take(n_groups as int) =~= sizes);
            lemma_group_start_nonneg(sizes, g as int);
            lemma_group_start_mono(sizes, g + 1, n_groups as int);
            assert(group_start(sizes, n_groups as int) == n);
        }
        let mut i: usize = gs;
        while i < ge
            invariant
                settings.wf(),
                n == settings.n_customers,
                n_groups == sizes.len(),
                sizes == settings.group_sizes@,
                k == settings.k_neighbors as int,
                half == settings.k_neighbors / 2,
                0 <= g < n_groups,
                gs == group_start(sizes, g as int),
                ge == group_start(sizes, g + 1),
                size == sizes[g as int],
                ge == gs + size,
                ge <= n,
                size > settings.k_neighbors,
                gs <= i <= ge,
                network@.len() == n,
                valid_entries(network@, n as int),
                ring_built_below(network@, sizes, k, i as int),
                empty_from(network@, i as int),
            decreases ge - i,
        {
            let pos = i - gs;
            proof {
                assert(network@[i as int]@ =~= ring_neighbors(
                    gs as int,
                    size as int,
                    pos as int,
                    k,
                ).take(0));
            }
            let mut m: usize = 1;
            while m <= half
                invariant
                    settings.wf(),
                    n == settings.n_customers,
                    sizes == settings.group_sizes@,
                    k == settings.k_neighbors as int,
                    half == settings.k_neighbors / 2,
                    0 <= g < sizes.len(),
                    gs == group_start(sizes, g as int),
                    ge == group_start(sizes, g + 1),
                    size == sizes[g as int],
                    ge == gs + size,
                    ge <= n,
                    size > settings.k_neighbors,
                    gs <= i < ge,
                    pos == i - gs,
                    1 <= m <= half + 1,
                    network@.len() == n,
                    valid_entries(network@, n as int),
                    ring_built_below(network@, sizes, k, i as int),
                    empty_from(network@, i + 1),
                    network@[i as int]@ == ring_neighbors(gs as int, size as int, pos as int, k)
                        .take(2 * (m - 1)),
                decreases half + 1 - m,
            {
                let forward = gs + (pos + m) % size;
                let backward = gs + (pos + size - m) % size;
                let ghost before = network@[i as int]@;
                network[i].push(forward);
                network[i].push(backward);
                proof {
                    let full = ring_neighbors(gs as int, size as int, pos as int, k);
                    assert(m <= k / 2);
                    assert(forward == ring_entry(gs as int, size as int, pos as int, 2 * (m - 1)));
                    assert(backward == ring_entry(
                        gs as int,
                        size as int,
                        pos as int,
                        2 * (m - 1) + 1,
                    ));
                    assert(network@[i as int]@ =~= full.take(2 * m));
                }
                m = m + 1;
            }
            proof {
                let full = ring_neighbors(gs as int, size as int, pos as int, k);
                assert(network@[i as int]@ =~= full);
                assert forall|g2: int, i2: int|
                    #![trigger in_group(sizes, g2, i2), network@[i2]]
                    0 <= g2 < sizes.len() && 0 <= i2 < i + 1 && in_group(
                        sizes,
                        g2,
                        i2,
                    ) implies network@[i2]@ == ring_neighbors(
                    group_start(sizes, g2),
                    sizes[g2] as int,
                    i2 - group_start(sizes, g2),
                    k,
                ) by {
                    if i2 == i {
                        if g2 < g {
                            lemma_group_start_mono(sizes, g2 + 1, g as int);
                            assert(false);
                        } else if g2 > g {
                            lemma_group_start_mono(sizes, g + 1, g2);
                            assert(false);
                        }
                    } else {
                        assert(in_group(sizes, g2, i2) && 0 <= i2 < i);
                    }
                }
                assert(ring_built_below(network@, sizes, k, i + 1));
            }
            i = i + 1;
        }
        g = g + 1;
    }
    proof {
        lemma_group_start_mono(sizes, g as int, sizes.len() as int);
    }
    let ghost after_ring = network@;

    // Small-world rewiring within each group.
    let mut g: usize = 0;
    while g < n_groups
        invariant
            settings.wf(),
            n == settings.n_customers,
            n_groups == sizes.len(),
            sizes == settings.group_sizes@,
            k == settings.k_neighbors as int,
            group_starts@.len() == n_groups + 1,
            forall|j: int|
                0 <= j <= n_groups ==> (#[trigger] group_starts@[j]) == group_start(sizes, j),
            0 <= g <= n_groups,
            network@.len() == n,
            valid_entries(network@, n as int),
            settings.p_intra.is_zero() ==> network@ == after_ring,
        decreases n_groups - g,
    {
        let gs = group_starts[g];
        let ge = group_starts[g + 1];
        proof {
            assert(sizes.take(g + 1).drop_last() =~= sizes.take(g as int));
            assert(sizes.take(n_groups as int) =~= sizes);
            lemma_group_start_nonneg(sizes, g as int);
            lemma_group_start_mono(sizes, g + 1, n_groups as int);
            assert(group_start(sizes, n_groups as int) == n);
        }
        let mut i: usize = gs;
        while i < ge
            invariant
                settings.wf(),
                n == settings.n_customers,
                sizes == settings.group_sizes@,
                gs == group_start(sizes, g as int),
                ge == group_start(sizes, g + 1),
                0 <= gs <= ge <= n,
                ge == gs + sizes[g as int],
                sizes[g as int] > settings.k_neighbors,
                gs <= i <= ge,
                network@.len() == n,
                valid_entries(network@, n as int),
                settings.p_intra.is_zero() ==> network@ == after_ring,
            decreases ge - i,
        {
            let mut j: usize = 0;
            while j < network[i].len()
                invariant
                    settings.wf(),
                    n == settings.n_customers,
                    sizes == settings.group_sizes@,
                    gs == group_start(sizes, g as int),
                    ge == group_start(sizes, g + 1),
                    0 <= gs <= ge <= n,
                    ge == gs + sizes[g as int],
                    sizes[g as int] > settings.k_neighbors,
                    gs <= i < ge,
                    0 <= j,
                    network@.len() == n,
                    valid_entries(network@, n as int),
                    settings.p_intra.is_zero() ==> network@ == after_ring,
                decreases network@[i as int]@.len() - j,
            {
                if coin(settings.p_intra.num, settings.p_intra.den) {
                    let new_target = pick(gs, ge);
                    network[i][j] = new_target;
                }
                j = j + 1;
            }
            i = i + 1;
        }
        g = g + 1;
    }
    let ghost after_rewire = network@;

    // Bidirectional inter-group shortcuts.
    let mut g: usize = 0;
    while g < n_groups
        invariant
            settings.wf(),
            n == settings.n_customers,
            n_groups == sizes.len(),
            sizes == settings.group_sizes@,
            group_starts@.len() == n_groups + 1,
            forall|j: int|
                0 <= j <= n_groups ==> (#[trigger] group_starts@[j]) == group_start(sizes, j),
            0 <= g <= n_groups,
            network@.len() == n,
            valid_entries(network@, n as int),
            settings.p_inter.is_zero() ==> network@ == after_rewire,
        decreases n_groups - g,
    {
        let gs = group_starts[g];
        let ge = group_starts[g + 1];
        proof {
            lemma_group_start_nonneg(sizes, g as int);
            lemma_group_start_mono(sizes, g as int, g + 1);
            lemma_group_start_mono(sizes, g + 1, n_groups as int);
            assert(sizes.take(n_groups as int) =~= sizes);
            assert(group_start(sizes, n_groups as int) == n);
        }
        let mut i: usize = gs;
        while i < ge
            invariant
                settings.wf(),
                n == settings.n_customers,
                n_groups == sizes.len(),
                sizes == settings.group_sizes@,
                group_starts@.len() == n_groups + 1,
                forall|j: int|
                    0 <= j <= n_groups ==> (#[trigger] group_starts@[j]) == group_start(sizes, j),
                0 <= g < n_groups,
                0 <= gs <= i,
                i <= ge <= n,
                network@.len() == n,
                valid_entries(network@, n as int),
                settings.p_inter.is_zero() ==> network@ == after_rewire,
            decreases ge - i,
        {
            let mut g2: usize = 0;
            while g2 < n_groups
                invariant
                    settings.wf(),
                    n == settings.n_customers,
                    n_groups == sizes.len(),
                    sizes == settings.group_sizes@,
                    group_starts@.len() == n_groups + 1,
                    forall|j: int|
                        0 <= j <= n_groups ==> (#[trigger] group_starts@[j]) == group_start(
                            sizes,
                            j,
                        ),
                    0 <= g < n_groups,
                    0 <= g2 <= n_groups,
                    i < n,
                    network@.len() == n,
                    valid_entries(network@, n as int),
                    settings.p_inter.is_zero() ==> network@ == after_rewire,
                decreases n_groups - g2,
            {
                if g2 != g {
                    if coin(settings.p_inter.num, settings.p_inter.den) {
                        let other_start = group_starts[g2];
                        let other_end = group_starts[g2 + 1];
                        proof {
                            lemma_group_start_nonneg(sizes, g2 as int);
                            lemma_group_start_mono(sizes, g2 + 1, n_groups as int);
                            assert(sizes.take(g2 + 1).drop_last() =~= sizes.take(g2 as int));
                            assert(sizes.take(n_groups as int) =~= sizes);
                            assert(group_start(sizes, n_groups as int) == n);
                        }
                        let target = pick(other_start, other_end);
                        network[i].push(target);
                        network[target].push(i);
                    }
                }
                g2 = g2 + 1;
            }
            i = i + 1;
        }
        g = g + 1;
    }
    proof {
        if settings.p_intra.is_zero() && settings.p_inter.is_zero() {
            assert(network@ == after_ring);
        }
    }
    network
}

} // verus!
