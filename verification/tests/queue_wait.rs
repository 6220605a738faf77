use rand::Rng;
use rand_pcg::Pcg64Mcg;
use stoc::{run_experiment, ContinuousMarkovProcess, ExperimentRng, MarkovQueueProbabilities, Sample};

#[derive(Debug, Clone, Copy, PartialEq)]
struct Real(f64);

impl Sample for Real {
    fn combine(&self, other: &Self) -> Self {
        Real(self.0 + other.0)
    }

    fn average(&self, count: usize) -> Self {
        Real(self.0 / count as f64)
    }
}

struct Shop {
    /// Arrivals in each unit of time, in tenths.
    arrival_tenths: u64,
    /// Customers that one unit serves in each unit of time, in tenths.
    service_tenths: u64,
    units: u64,
    /// The units of time after which the queue is looked at.
    burn_in: f64,
}

const TICKS_PER_UNIT: f64 = 1.0e6;
const RATES_PER_UNIT: f64 = 10.0;

/// The number of customers in the shop at the end of the burn-in.
fn customers_present(shop: &Shop, rng: &mut ExperimentRng) -> Real {
    let queue = MarkovQueueProbabilities::new(shop.arrival_tenths, shop.service_tenths, shop.units);
    let mut process = ContinuousMarkovProcess::new(queue, 0);
    let look_at = (shop.burn_in * TICKS_PER_UNIT) as u64;
    let mut present = process.state();
    while process.time() < look_at {
        present = process.state();
        let unit: f64 = rng.sample(rand_distr::Exp1);
        process.step(rng, (unit * TICKS_PER_UNIT * RATES_PER_UNIT) as u64);
    }
    Real(present as f64)
}

#[test]
fn mean_wait_of_two_unit_queue_matches_the_formula() {
    let shop = Shop { arrival_tenths: 12, service_tenths: 10, units: 2, burn_in: 60.0 };
    let arrival: f64 = 1.2;
    let service: f64 = 1.0;
    let units: f64 = 2.0;
    // The closed form for a queue of two units with exponential arrivals
    // and service.
    let load = arrival / service;
    let busy = load / units;
    let empty = 1.0 / (1.0 + load + load * load / (2.0 * (1.0 - busy)));
    let delayed = load * load / (2.0 * (1.0 - busy)) * empty;
    let wait_in_queue = delayed / (units * service - arrival);
    let wait = wait_in_queue + 1.0 / service;
    assert!((wait - 1.5625).abs() < 1e-12);

    let mut rng = Pcg64Mcg::new(71);
    let present = run_experiment(customers_present, &shop, 40_000, 8, &mut rng);
    // The mean wait is the mean number present over the arrival rate.
    let measured = present.0 / arrival;
    assert!((measured - wait).abs() < 0.05 * wait, "measured {} against {}", measured, wait);
}
