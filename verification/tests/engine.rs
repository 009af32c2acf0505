use personalized_pricing::customer::Customer;
use personalized_pricing::event::EventKind;
use personalized_pricing::settings::{ProblemSettings, Ratio};
use personalized_pricing::simulation::{simulate_revenue, SimulationResult};
use personalized_pricing::strategy::{Algorithm, StochasticModel};

/// A deterministic stand-in for the stochastic kernels.
struct FixedModel {
    wtp: u64,
    buy: bool,
    delay: u64,
    shift: u64,
}

impl StochasticModel for FixedModel {
    fn draw_wtp(&mut self, _mean: u64) -> u64 {
        self.wtp
    }
    fn purchase_draw(&mut self, _adjusted_wtp: u64, _price: u64, _sigmoid_scale: u64) -> bool {
        self.buy
    }
    fn visit_delay(&mut self, _wtp: u64, _price: u64) -> u64 {
        self.delay
    }
    fn wtp_shift(&mut self, _diff: u64, _alpha: Ratio) -> u64 {
        self.shift
    }
}

/// A model whose willingness to pay echoes the scaled group mean.
struct MeanModel {
    buy_at_or_below_wtp: bool,
    delay: u64,
}

impl StochasticModel for MeanModel {
    fn draw_wtp(&mut self, mean: u64) -> u64 {
        mean
    }
    fn purchase_draw(&mut self, adjusted_wtp: u64, price: u64, _sigmoid_scale: u64) -> bool {
        self.buy_at_or_below_wtp && price <= adjusted_wtp
    }
    fn visit_delay(&mut self, _wtp: u64, _price: u64) -> u64 {
        self.delay
    }
    fn wtp_shift(&mut self, _diff: u64, _alpha: Ratio) -> u64 {
        0
    }
}

struct ConstPrice {
    price: u64,
    rewards: Vec<(usize, usize, usize, u64, u64)>,
}

impl ConstPrice {
    fn new(price: u64) -> ConstPrice {
        ConstPrice { price, rewards: Vec::new() }
    }
}

impl Algorithm for ConstPrice {
    fn get_price(&mut self, _group_id: usize, _visit: usize, _period: usize) -> u64 {
        self.price
    }
    fn update_average_reward(
        &mut self,
        group_id: usize,
        visit: usize,
        period: usize,
        reward: u64,
        price: u64,
    ) {
        self.rewards.push((group_id, visit, period, reward, price));
    }
}

fn base_settings(group_sizes: Vec<usize>, group_means: Vec<u64>, k: usize) -> ProblemSettings {
    let n: usize = group_sizes.iter().sum();
    let n_groups = group_sizes.len();
    ProblemSettings {
        n_visits: 3,
        n_periods: 100,
        n_groups,
        n_customers: n,
        tau: Ratio::new(3, 5),
        scaling: 1,
        group_sizes,
        group_means,
        alpha: Ratio::new(22, 25),
        lambda: Ratio::new(9, 4),
        eta: Ratio::new(1, 2),
        max_events: 1000,
        clustering_accuracy: Ratio::new(1, 1),
        k_neighbors: k,
        p_intra: Ratio::new(0, 5),
        p_inter: Ratio::new(0, 10),
        global_wom_prob: Ratio::new(0, 100),
        max_price: 700_000,
        num_predicted_groups: if n_groups == 0 { 1 } else { n_groups },
        sigmoid_scale: 200_000,
    }
}

fn check_accounting(result: &SimulationResult) {
    // Revenue is the sum of the prices of the sold events.
    let mut revenue: u128 = 0;
    let mut regret: i128 = 0;
    let mut n_sold: usize = 0;
    let mut sold_ids: Vec<usize> = Vec::new();
    let mut last_t: u64 = 0;
    for e in result.event_history.iter() {
        assert!(e.t >= last_t, "events out of time order");
        last_t = e.t;
        match e.event {
            EventKind::Sold => {
                revenue += e.price as u128;
                regret += e.adjusted_wtp as i128 - e.price as i128;
                n_sold += 1;
                assert!(!sold_ids.contains(&e.customer), "customer sold twice");
                sold_ids.push(e.customer);
            }
            EventKind::Quit => {
                regret += e.adjusted_wtp as i128;
            }
            EventKind::Arrival => {}
        }
    }
    assert_eq!(result.revenue, revenue);
    assert_eq!(result.regret, regret);
    assert_eq!(result.n_sold, n_sold);
    assert!(result.n_sold <= result.customers.len());
    assert_eq!(result.n_sold == 0, result.avg_time_sold_at.is_none());
}

#[test]
fn single_customer_free_price_buys_first_visit() {
    // One group, one customer, no neighbours, a strategy that always
    // returns price 0, positive willingness to pay: the customer buys on
    // the first visit, revenue is 0, and the sold fraction is 1.
    let settings = base_settings(vec![1], vec![200_000], 0);
    assert!(settings.is_valid());
    let mut alg = ConstPrice::new(0);
    let mut model = FixedModel { wtp: 50_000, buy: true, delay: 500, shift: 0 };
    let result = simulate_revenue(&mut alg, &mut model, &settings);
    check_accounting(&result);
    assert_eq!(result.customers.len(), 1);
    assert_eq!(result.n_sold, 1);
    assert_eq!(result.revenue, 0);
    assert_eq!(result.event_history.len(), 2);
    assert!(matches!(result.event_history[0].event, EventKind::Arrival));
    assert!(matches!(result.event_history[1].event, EventKind::Sold));
    assert_eq!(result.event_history[1].price, 0);
    assert_eq!(result.event_history[1].t, 500);
    assert_eq!(result.avg_time_sold_at, Some(500));
    // The strategy was notified once, with the price as the reward.
    assert_eq!(alg.rewards.len(), 1);
    assert_eq!(alg.rewards[0].3, 0);
}

#[test]
fn exorbitant_price_makes_every_customer_quit() {
    // A price far above 1.2 times any willingness to pay: every
    // customer's first event is a quit; revenue 0, regret positive, no
    // sale, and the average time of sale is the defined sentinel.
    let settings = base_settings(vec![3], vec![50_000], 0);
    let mut alg = ConstPrice::new(10_000_000_000);
    let mut model = FixedModel { wtp: 50_000, buy: true, delay: 700, shift: 0 };
    let result = simulate_revenue(&mut alg, &mut model, &settings);
    check_accounting(&result);
    assert_eq!(result.n_sold, 0);
    assert_eq!(result.revenue, 0);
    assert_eq!(result.regret, 3 * 50_000);
    assert!(result.regret > 0);
    assert_eq!(result.event_history.len(), 6);
    for pair in result.event_history.chunks(2) {
        assert!(matches!(pair[0].event, EventKind::Arrival));
        assert!(matches!(pair[1].event, EventKind::Quit));
    }
    assert_eq!(result.avg_time_sold_at, None);
    // Each quit notifies the strategy with reward 0.
    assert_eq!(alg.rewards.len(), 3);
    assert!(alg.rewards.iter().all(|r| r.3 == 0));
}

#[test]
fn equal_groups_sell_equally_under_symmetric_model() {
    // Two groups of equal size and identical mean willingness to pay,
    // a constant price at exactly the group mean, and a deterministic
    // symmetric model: the sold fractions of the two groups are equal.
    let settings = base_settings(vec![5, 5], vec![200_000, 200_000], 2);
    let mut alg = ConstPrice::new(200_000);
    let mut model = MeanModel { buy_at_or_below_wtp: true, delay: 900 };
    let result = simulate_revenue(&mut alg, &mut model, &settings);
    check_accounting(&result);
    let sold_in_group = |g: usize| {
        result
            .event_history
            .iter()
            .filter(|e| matches!(e.event, EventKind::Sold) && e.actual_group == g)
            .count()
    };
    assert_eq!(sold_in_group(0), sold_in_group(1));
    assert_eq!(result.n_sold, 10);
    assert_eq!(result.revenue, 10 * 200_000);
}

#[test]
fn requeue_branch_gives_no_feedback_and_no_sale() {
    // Neither a hard reject nor a purchase: the visit is rescheduled and
    // the strategy gets no signal at all on that branch.
    let settings = base_settings(vec![2], vec![100_000], 0);
    let mut alg = ConstPrice::new(50_000);
    let mut model = FixedModel { wtp: 100_000, buy: false, delay: 40_000, shift: 10 };
    let result = simulate_revenue(&mut alg, &mut model, &settings);
    check_accounting(&result);
    assert_eq!(result.n_sold, 0);
    assert_eq!(result.revenue, 0);
    assert_eq!(result.regret, 0);
    assert!(result.event_history.iter().all(|e| matches!(e.event, EventKind::Arrival)));
    assert!(alg.rewards.is_empty());
    // First visits at 40_000, requeued once at 80_000, requeues to
    // 120_000 which is beyond the horizon of 100 periods and is skipped.
    assert_eq!(result.event_history.len(), 4);
}

#[test]
fn events_beyond_horizon_are_skipped() {
    let settings = base_settings(vec![3], vec![100_000], 0);
    let mut alg = ConstPrice::new(0);
    let mut model = FixedModel { wtp: 100_000, buy: true, delay: 200_000, shift: 0 };
    let result = simulate_revenue(&mut alg, &mut model, &settings);
    check_accounting(&result);
    assert!(result.event_history.is_empty());
    assert_eq!(result.n_sold, 0);
    assert_eq!(result.revenue, 0);
    assert_eq!(result.avg_time_sold_at, None);
}

#[test]
fn event_budget_caps_processing() {
    let settings = ProblemSettings { max_events: 1, ..base_settings(vec![3], vec![100_000], 0) };
    let mut alg = ConstPrice::new(0);
    let mut model = FixedModel { wtp: 100_000, buy: true, delay: 10, shift: 0 };
    let result = simulate_revenue(&mut alg, &mut model, &settings);
    check_accounting(&result);
    // Only one popped event is processed before the budget stops the run.
    assert_eq!(result.event_history.len(), 2);
    assert_eq!(result.n_sold, 1);
}

#[test]
fn empty_population_yields_empty_run() {
    let settings = base_settings(vec![], vec![], 0);
    assert!(settings.is_valid());
    let mut alg = ConstPrice::new(100);
    let mut model = FixedModel { wtp: 0, buy: true, delay: 1, shift: 0 };
    let result = simulate_revenue(&mut alg, &mut model, &settings);
    check_accounting(&result);
    assert!(result.event_history.is_empty());
    assert!(result.customers.is_empty());
    assert_eq!(result.avg_regret, 0);
    assert_eq!(result.avg_time_sold_at, None);
}

#[test]
fn behavioural_update_runs_after_purchase() {
    // A single customer buys at 100_000 with willingness to pay 200_000;
    // the reference-price machine then updates in its fixed order with
    // tau = 3/5, eta = 1/2, lambda = 9/4 and a model shift of 1000.
    let settings = base_settings(vec![1], vec![200_000], 0);
    let mut alg = ConstPrice::new(100_000);
    let mut model = FixedModel { wtp: 200_000, buy: true, delay: 500, shift: 1000 };
    let result = simulate_revenue(&mut alg, &mut model, &settings);
    check_accounting(&result);
    assert_eq!(result.n_sold, 1);
    assert_eq!(result.revenue, 100_000);
    // Regret of the sale: adjusted willingness to pay minus price.
    assert_eq!(result.regret, 100_000);
    let c: &Customer = &result.customers[0];
    assert_eq!(c.price_hist, vec![100_000]);
    // irp <- (3*price + 2*old_irp)/5.
    assert_eq!(c.irp, (3 * 100_000u64 + 2 * 200_000) / 5);
    // No neighbour and no word of mouth: erp keeps its initial value.
    assert_eq!(c.erp, 200_000);
    // erp > irp: the customer anchors to the lower internal value.
    assert_eq!(c.rp, c.irp);
    // rp < wtp: loss aversion, wtp -= 9/4 * shift.
    assert_eq!(c.wtp, 200_000 - (9 * 1000) / 4);
    assert_eq!(c.initial_wtp, 200_000);
    assert_eq!(c.max_wtp, 400_000);
}

#[test]
fn predicted_group_matches_under_perfect_clustering() {
    let settings = base_settings(vec![3, 3], vec![100_000, 100_000], 1);
    let mut alg = ConstPrice::new(10_000_000_000);
    let mut model = FixedModel { wtp: 1_000, buy: false, delay: 100, shift: 0 };
    let result = simulate_revenue(&mut alg, &mut model, &settings);
    for (i, c) in result.customers.iter().enumerate() {
        assert_eq!(c.id, i);
        assert_eq!(c.predicted_group, c.group);
        assert_eq!(c.group, if i < 3 { 0 } else { 1 });
    }
}

/// Per-customer scripted draws: initial visit delays by id, one scripted
/// purchase, huge later delays.
struct ScriptedModel {
    wtps: Vec<u64>,
    init_delays: Vec<u64>,
    draws_seen: usize,
    wtp_seen: usize,
    delays_seen: usize,
    buy_on_draw: Option<usize>,
}

impl StochasticModel for ScriptedModel {
    fn draw_wtp(&mut self, _mean: u64) -> u64 {
        let w = self.wtps[self.wtp_seen % self.wtps.len()];
        self.wtp_seen += 1;
        w
    }
    fn purchase_draw(&mut self, _adjusted_wtp: u64, _price: u64, _sigmoid_scale: u64) -> bool {
        let buy = self.buy_on_draw == Some(self.draws_seen);
        self.draws_seen += 1;
        buy
    }
    fn visit_delay(&mut self, _wtp: u64, _price: u64) -> u64 {
        let d = if self.delays_seen < self.init_delays.len() {
            self.init_delays[self.delays_seen]
        } else {
            100_000_000
        };
        self.delays_seen += 1;
        d
    }
    fn wtp_shift(&mut self, _diff: u64, _alpha: Ratio) -> u64 {
        0
    }
}

#[test]
fn neighbours_purchase_feeds_the_external_reference_price() {
    // Three customers in one ring of degree 2: everyone neighbours
    // everyone. Customer 1 visits first and buys at 50_000; the others
    // then see that last paid price as their only reference signal.
    let settings = base_settings(vec![3], vec![100_000], 2);
    let mut alg = ConstPrice::new(50_000);
    let mut model = ScriptedModel {
        wtps: vec![100_000],
        init_delays: vec![200, 100, 300],
        draws_seen: 0,
        wtp_seen: 0,
        delays_seen: 0,
        buy_on_draw: Some(0),
    };
    let result = simulate_revenue(&mut alg, &mut model, &settings);
    check_accounting(&result);
    assert_eq!(result.n_sold, 1);
    assert_eq!(result.customers[1].price_hist, vec![50_000]);
    // Customer 0, visiting at t = 200, aggregates the purchase of its
    // neighbour and runs the full update chain.
    let c0 = &result.customers[0];
    assert_eq!(c0.irp, (3 * 50_000u64 + 2 * 100_000) / 5);
    assert_eq!(c0.erp, 50_000);
    assert_eq!(c0.rp, (c0.erp + c0.irp) / 2);
    assert_eq!(c0.wtp, 100_000);
    // Customer 2, visiting at t = 300, sees the same single signal.
    assert_eq!(result.customers[2].erp, 50_000);
}

#[test]
fn certain_word_of_mouth_averages_other_wtps() {
    // No network edges, but word of mouth with probability one: each
    // visit averages every other customer's current willingness to pay
    // into the external reference price.
    let mut settings = base_settings(vec![2], vec![100_000], 0);
    settings.global_wom_prob = Ratio::new(1, 1);
    let mut alg = ConstPrice::new(10_000);
    let mut model = ScriptedModel {
        wtps: vec![100_000, 300_000],
        init_delays: vec![100, 200],
        draws_seen: 0,
        wtp_seen: 0,
        delays_seen: 0,
        buy_on_draw: None,
    };
    let result = simulate_revenue(&mut alg, &mut model, &settings);
    check_accounting(&result);
    // Customer 0 visited at t = 100 and saw customer 1's value.
    assert_eq!(result.customers[0].erp, 300_000);
    // Customer 1 visited at t = 200 and saw customer 0's unchanged one.
    assert_eq!(result.customers[1].erp, 100_000);
}
