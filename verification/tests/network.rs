use personalized_pricing::network_formation::create_network;
use personalized_pricing::settings::{ProblemSettings, Ratio};

fn net_settings(group_sizes: Vec<usize>, k: usize, p_intra: Ratio, p_inter: Ratio) -> ProblemSettings {
    let n: usize = group_sizes.iter().sum();
    let n_groups = group_sizes.len();
    ProblemSettings {
        n_visits: 3,
        n_periods: 100,
        n_groups,
        n_customers: n,
        tau: Ratio::new(3, 5),
        scaling: 1,
        group_sizes,
        group_means: vec![100_000; n_groups],
        alpha: Ratio::new(22, 25),
        lambda: Ratio::new(9, 4),
        eta: Ratio::new(1, 2),
        max_events: 1000,
        clustering_accuracy: Ratio::new(1, 1),
        k_neighbors: k,
        p_intra,
        p_inter,
        global_wom_prob: Ratio::new(0, 100),
        max_price: 700_000,
        num_predicted_groups: if n_groups == 0 { 1 } else { n_groups },
        sigmoid_scale: 200_000,
    }
}

#[test]
fn zero_probabilities_give_the_exact_ring_lattice() {
    // One group of five, degree 2: node i is connected to i+1 and i-1,
    // wrapping inside the group, forward edge first.
    let s = net_settings(vec![5], 2, Ratio::new(0, 1), Ratio::new(0, 1));
    let net = create_network(&s);
    assert_eq!(net.len(), 5);
    for i in 0..5 {
        assert_eq!(net[i], vec![(i + 1) % 5, (i + 4) % 5]);
    }
}

#[test]
fn ring_lattice_of_degree_four() {
    let s = net_settings(vec![6], 4, Ratio::new(0, 1), Ratio::new(0, 1));
    let net = create_network(&s);
    for i in 0..6 {
        assert_eq!(
            net[i],
            vec![(i + 1) % 6, (i + 5) % 6, (i + 2) % 6, (i + 4) % 6],
        );
    }
}

#[test]
fn ring_lattice_respects_group_partitions() {
    let s = net_settings(vec![4, 3], 2, Ratio::new(0, 1), Ratio::new(0, 1));
    let net = create_network(&s);
    assert_eq!(net.len(), 7);
    // First group: indices 0..4, ring inside the group.
    for i in 0..4 {
        assert_eq!(net[i], vec![(i + 1) % 4, (i + 3) % 4]);
    }
    // Second group: indices 4..7, ring shifted by the group start.
    for p in 0..3 {
        assert_eq!(net[4 + p], vec![4 + (p + 1) % 3, 4 + (p + 2) % 3]);
    }
}

#[test]
fn odd_degree_rounds_down() {
    // k = 1 gives no edges at all: one neighbour on each side per full
    // pair of directions, so degree 2 * (1 / 2) = 0.
    let s = net_settings(vec![3], 1, Ratio::new(0, 1), Ratio::new(0, 1));
    let net = create_network(&s);
    for row in net.iter() {
        assert!(row.is_empty());
    }
}

#[test]
fn certain_rewiring_stays_inside_the_group() {
    let s = net_settings(vec![5, 5], 2, Ratio::new(1, 1), Ratio::new(0, 1));
    let net = create_network(&s);
    assert_eq!(net.len(), 10);
    for i in 0..10 {
        // Rewiring replaces targets but not the number of edges.
        assert_eq!(net[i].len(), 2);
        let (lo, hi) = if i < 5 { (0, 5) } else { (5, 10) };
        for &t in net[i].iter() {
            assert!(lo <= t && t < hi, "rewired edge left the group");
        }
    }
}

#[test]
fn certain_inter_group_edges_are_bidirectional() {
    let s = net_settings(vec![4, 4], 0, Ratio::new(0, 1), Ratio::new(1, 1));
    let net = create_network(&s);
    for i in 0..8 {
        let own = if i < 4 { 0..4 } else { 4..8 };
        // With probability one, every node gained at least one edge into
        // the other group.
        assert!(
            net[i].iter().any(|t| !own.contains(t)),
            "node {} has no inter-group edge",
            i
        );
        // Every edge is mirrored: the target also lists the source.
        for &t in net[i].iter() {
            if !own.contains(&t) {
                assert!(net[t].contains(&i));
            }
        }
    }
}

#[test]
fn all_entries_name_existing_customers() {
    let s = net_settings(vec![5, 6, 7], 4, Ratio::new(1, 2), Ratio::new(1, 2));
    let net = create_network(&s);
    assert_eq!(net.len(), 18);
    for row in net.iter() {
        for &t in row.iter() {
            assert!(t < 18);
        }
    }
}
