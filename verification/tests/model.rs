use personalized_pricing::calendar::EventCalendar;
use personalized_pricing::customer::Customer;
use personalized_pricing::event::{EventKind, SimulationEvent};
use personalized_pricing::settings::{ProblemSettings, Ratio};
use personalized_pricing::simulation::gather_reference_signals;
use personalized_pricing::strategy::{MABStrategy, StochasticModel};

fn plain_settings() -> ProblemSettings {
    ProblemSettings {
        n_visits: 3,
        n_periods: 100,
        n_groups: 2,
        n_customers: 5,
        tau: Ratio::new(3, 5),
        scaling: 100,
        group_sizes: vec![2, 3],
        group_means: vec![2_000, 5_000],
        alpha: Ratio::new(22, 25),
        lambda: Ratio::new(9, 4),
        eta: Ratio::new(1, 2),
        max_events: 1000,
        clustering_accuracy: Ratio::new(1, 1),
        k_neighbors: 1,
        p_intra: Ratio::new(1, 5),
        p_inter: Ratio::new(1, 10),
        global_wom_prob: Ratio::new(1, 100),
        max_price: 700_000,
        num_predicted_groups: 2,
        sigmoid_scale: 200_000,
    }
}

#[test]
fn valid_settings_pass_the_check() {
    assert!(plain_settings().is_valid());
}

#[test]
fn group_smaller_than_degree_is_invalid() {
    let mut s = plain_settings();
    s.k_neighbors = 2;
    assert!(!s.is_valid());
}

#[test]
fn group_size_sum_must_match_population() {
    let mut s = plain_settings();
    s.n_customers = 6;
    assert!(!s.is_valid());
}

#[test]
fn zero_denominator_is_invalid() {
    let mut s = plain_settings();
    s.tau = Ratio { num: 1, den: 0 };
    assert!(!s.is_valid());
}

#[test]
fn probability_above_one_is_invalid() {
    let mut s = plain_settings();
    s.global_wom_prob = Ratio { num: 3, den: 2 };
    assert!(!s.is_valid());
}

#[test]
fn mismatched_group_lists_are_invalid() {
    let mut s = plain_settings();
    s.group_means = vec![2_000];
    assert!(!s.is_valid());
}

#[test]
fn horizon_is_periods_in_time_units() {
    let s = plain_settings();
    assert_eq!(s.horizon(), 100_000);
}

fn fresh_customer(wtp: u64) -> Customer {
    Customer::new(7, 1, 0, wtp, 2 * wtp, vec![3, 4])
}

#[test]
fn new_customer_anchors_all_prices_at_wtp() {
    let c = fresh_customer(120_000);
    assert_eq!(c.id, 7);
    assert_eq!(c.group, 1);
    assert_eq!(c.predicted_group, 0);
    assert_eq!(c.irp, 120_000);
    assert_eq!(c.erp, 120_000);
    assert_eq!(c.rp, 120_000);
    assert_eq!(c.wtp, 120_000);
    assert_eq!(c.max_wtp, 240_000);
    assert_eq!(c.initial_wtp, 120_000);
    assert!(c.price_hist.is_empty());
    assert_eq!(c.neighbors, vec![3, 4]);
}

#[test]
fn irp_update_is_exponential_smoothing() {
    let mut c = fresh_customer(100);
    c.update_irp(50, Ratio::new(1, 2));
    // (1*50 + 1*100) / 2
    assert_eq!(c.irp, 75);
    c.update_irp(75, Ratio::new(1, 1));
    assert_eq!(c.irp, 75);
    c.update_irp(999, Ratio::new(0, 1));
    assert_eq!(c.irp, 75);
}

#[test]
fn erp_update_takes_the_mean_of_the_signals() {
    let mut c = fresh_customer(100);
    c.update_erp(&vec![10, 20, 31]);
    assert_eq!(c.erp, 20);
    // No signal available: fall back to the customer's own WTP.
    c.update_erp(&vec![]);
    assert_eq!(c.erp, 100);
}

#[test]
fn rp_update_is_asymmetric() {
    let mut c = fresh_customer(100);
    c.update_erp(&vec![120]);
    c.update_rp(Ratio::new(1, 2));
    // External above internal: anchor to the internal price.
    assert_eq!(c.rp, 100);
    c.update_erp(&vec![60]);
    c.update_rp(Ratio::new(1, 2));
    // (1*60 + 1*100) / 2
    assert_eq!(c.rp, 80);
}

#[test]
fn wtp_update_is_loss_averse() {
    // Gain: the reference price is above the willingness to pay.
    let mut c = fresh_customer(100);
    c.update_erp(&vec![300]);
    c.update_irp(400, Ratio::new(1, 1));
    c.update_rp(Ratio::new(1, 2));
    assert_eq!(c.rp, 350);
    c.update_wtp(Ratio::new(9, 4), 40);
    assert_eq!(c.wtp, 140);
    // Loss: the shift is amplified by lambda = 9/4.
    let mut d = fresh_customer(100);
    d.update_irp(0, Ratio::new(1, 1));
    d.update_rp(Ratio::new(1, 1));
    assert_eq!(d.rp, 0);
    d.update_wtp(Ratio::new(9, 4), 40);
    assert_eq!(d.wtp, 100 - 90);
}

#[test]
fn wtp_update_saturates_at_both_ends() {
    let mut c = fresh_customer(10);
    c.update_irp(u64::MAX, Ratio::new(1, 1));
    c.update_rp(Ratio::new(0, 1));
    assert_eq!(c.rp, u64::MAX);
    c.update_wtp(Ratio::new(1, 1), u64::MAX);
    assert_eq!(c.wtp, u64::MAX);
    let mut d = fresh_customer(10);
    d.update_irp(0, Ratio::new(1, 1));
    d.update_rp(Ratio::new(1, 1));
    d.update_wtp(Ratio::new(1, 1), u64::MAX);
    assert_eq!(d.wtp, 0);
}

struct SlowModel;

impl StochasticModel for SlowModel {
    fn draw_wtp(&mut self, mean: u64) -> u64 {
        mean
    }
    fn purchase_draw(&mut self, _adjusted_wtp: u64, _price: u64, _sigmoid_scale: u64) -> bool {
        false
    }
    fn visit_delay(&mut self, _wtp: u64, _price: u64) -> u64 {
        u64::MAX
    }
    fn wtp_shift(&mut self, _diff: u64, _alpha: Ratio) -> u64 {
        0
    }
}

#[test]
fn next_visit_never_precedes_the_current_time() {
    let c = fresh_customer(100);
    let mut model = SlowModel;
    let t = c.next_visit(&mut model, 5_000, 40);
    assert!(t >= 5_000);
    // A huge delay saturates instead of wrapping around.
    assert_eq!(t, u64::MAX);
}

#[test]
fn record_purchase_appends_to_the_history() {
    let mut c = fresh_customer(100);
    c.record_purchase(70);
    assert_eq!(c.price_hist, vec![70]);
    assert_eq!(c.wtp, 100);
}

#[test]
fn event_snapshots_the_customer() {
    let c = fresh_customer(100);
    let e = SimulationEvent::new(&c, 42, EventKind::Quit, 500, 99);
    assert_eq!(e.t, 42);
    assert!(matches!(e.event, EventKind::Quit));
    assert_eq!(e.customer, 7);
    assert_eq!(e.customer_wtp, 100);
    assert_eq!(e.customer_max_wtp, 200);
    assert_eq!(e.predicted_group, 0);
    assert_eq!(e.actual_group, 1);
    assert_eq!(e.price, 500);
    assert_eq!(e.irp, 100);
    assert_eq!(e.erp, 100);
    assert_eq!(e.rp, 100);
    assert_eq!(e.adjusted_wtp, 99);
}

#[test]
fn calendar_pops_in_time_order() {
    let mut cal = EventCalendar::new();
    cal.push(3, 30);
    cal.push(1, 10);
    cal.push(2, 20);
    assert_eq!(cal.len(), 3);
    assert_eq!(cal.pop_earliest(), Some((1, 10)));
    assert_eq!(cal.pop_earliest(), Some((2, 20)));
    assert_eq!(cal.pop_earliest(), Some((3, 30)));
    assert_eq!(cal.pop_earliest(), None);
    assert_eq!(cal.len(), 0);
}

#[test]
fn calendar_replaces_a_customers_pending_visit() {
    let mut cal = EventCalendar::new();
    cal.push(5, 50);
    cal.push(5, 15);
    assert_eq!(cal.len(), 1);
    assert_eq!(cal.pop_earliest(), Some((5, 15)));
    assert_eq!(cal.pop_earliest(), None);
}

#[test]
fn strategy_labels_are_fixed() {
    assert_eq!(MABStrategy::EpsilonGreedy.label(), "EpsilonGreedy");
    assert_eq!(MABStrategy::UCB.label(), "UCB");
    assert_eq!(MABStrategy::DecayingEpsilonGreedy.label(), "DecayingEpsilonGreedy");
}

#[test]
fn gathered_signals_are_the_neighbours_last_prices() {
    let mut s = plain_settings();
    s.global_wom_prob = Ratio::new(0, 100);
    let mut buyer = Customer::new(1, 0, 0, 80_000, 160_000, vec![]);
    buyer.record_purchase(42_000);
    buyer.record_purchase(43_000);
    let silent = Customer::new(2, 0, 0, 90_000, 180_000, vec![]);
    let watcher = Customer::new(0, 0, 0, 70_000, 140_000, vec![1, 2, 1]);
    let customers = vec![watcher, buyer, silent];
    // Last paid price of each purchasing neighbour, in list order, with
    // repeated neighbours repeated and silent ones skipped.
    let signals = gather_reference_signals(0, &customers, &s);
    assert_eq!(signals, vec![43_000, 43_000]);
}
