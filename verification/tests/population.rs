use genetic::chromosome::Ordered;
use genetic::env::{EnvSettings, EnvSettingsBuilder};
use genetic::individual::OwnedGenome;
use genetic::loss::{loss_above, loss_below, F64_MAX_BITS};
use genetic::population::{fold_min_loss, spawn_count, Population};

#[test]
fn spawn_count_values() {
    // a quarter of 40: ten replacements, already even
    assert_eq!(spawn_count(40, 250), 10);
    // the whole population, clamped to keep the elite, then made even
    assert_eq!(spawn_count(5, 1000), 4);
    // rounding down to an even count
    assert_eq!(spawn_count(7, 500), 2);
    assert_eq!(spawn_count(10, 300), 2);
    // degenerate sizes
    assert_eq!(spawn_count(1, 500), 0);
    assert_eq!(spawn_count(0, 999), 0);
    assert_eq!(spawn_count(2, 0), 0);
}

#[test]
fn spawn_count_parity_and_bound() {
    for n in 0usize..50 {
        for sp in [0u32, 1, 100, 250, 333, 500, 999, 1000] {
            let c = spawn_count(n, sp);
            assert_eq!(c % 2, 0);
            if n == 0 {
                assert_eq!(c, 0);
            } else {
                assert!(c <= n - 1);
            }
        }
    }
}

#[test]
fn fold_min_ignores_nan() {
    let ls: Vec<u64> = vec![2.0f64.to_bits(), f64::NAN.to_bits(), 1.5f64.to_bits(), 3.0f64.to_bits()];
    assert_eq!(f64::from_bits(fold_min_loss(&ls)), 1.5);

    let all_nan: Vec<u64> = vec![f64::NAN.to_bits(), f64::NAN.to_bits()];
    assert_eq!(fold_min_loss(&all_nan), F64_MAX_BITS);
    assert_eq!(f64::from_bits(F64_MAX_BITS), f64::MAX);

    let empty: Vec<u64> = Vec::new();
    assert_eq!(fold_min_loss(&empty), F64_MAX_BITS);

    let negatives: Vec<u64> = vec![(-1.0f64).to_bits(), (-3.5f64).to_bits(), 0.0f64.to_bits()];
    assert_eq!(f64::from_bits(fold_min_loss(&negatives)), -3.5);
}

#[test]
fn loss_comparisons_follow_float_policy() {
    let a = 1.0f64.to_bits();
    let b = 2.0f64.to_bits();
    let n = f64::NAN.to_bits();
    let neg = (-7.0f64).to_bits();
    assert!(loss_below(a, b));
    assert!(!loss_below(b, a));
    assert!(loss_below(neg, a));
    assert!(!loss_below(n, a));
    assert!(!loss_below(a, n));
    assert!(loss_above(b, a));
    assert!(!loss_above(n, a));
    assert!(!loss_above(a, n));
}

fn value_population(size: usize) -> Population<OwnedGenome<Ordered<u32>>, impl Fn(&OwnedGenome<Ordered<u32>>) -> u64> {
    let mut pop = Population::with_loss(size, EnvSettings::default(), |ind: &OwnedGenome<Ordered<u32>>| {
        let v = ind.genome[0].value;
        if v % 5 == 0 {
            f64::NAN.to_bits()
        } else {
            (v as f64).to_bits()
        }
    });
    pop.initialize(|seed: u64| vec![Ordered::unweighted((seed % 1000) as u32)]);
    pop
}

#[test]
fn losses_sorted_ascending_nan_last() {
    let pop = value_population(25);
    let ls = pop.losses();
    assert_eq!(ls.len(), 25);
    for w in ls.windows(2) {
        let a = f64::from_bits(w[0]);
        let b = f64::from_bits(w[1]);
        if a.is_nan() {
            assert!(b.is_nan());
        } else if !b.is_nan() {
            assert!(a <= b);
        }
    }
}

#[test]
fn loss_is_minimum_of_losses() {
    let pop = value_population(25);
    let ls = pop.losses();
    let min = pop.loss();
    let first = f64::from_bits(ls[0]);
    let got = f64::from_bits(min);
    if first.is_nan() {
        // every loss was incomparable: the scan reports its seed
        assert_eq!(min, F64_MAX_BITS);
    } else {
        assert_eq!(got, first);
    }
}

#[test]
fn empty_population_reports_defaults() {
    let mut pop: Population<OwnedGenome<Ordered<u32>>, _> =
        Population::with_loss(0, EnvSettings::default(), |ind: &OwnedGenome<Ordered<u32>>| {
            (ind.genome[0].value as f64).to_bits()
        });
    assert_eq!(pop.loss(), F64_MAX_BITS);
    assert_eq!(pop.losses().len(), 0);
    let reported = pop.evolve();
    assert_eq!(f64::from_bits(reported), 0.0);
}

#[test]
fn evolve_keeps_population_size() {
    let mut pop = value_population(30);
    for _ in 0..5 {
        pop.evolve();
        assert_eq!(pop.losses().len(), 30);
    }
}

#[test]
fn evolve_preserves_elite_minimum() {
    // with every operator probability at zero, breeding only copies
    // genotypes, so the minimum loss can never change
    let settings = EnvSettings {
        crossover_prob: 0,
        swap_homologous_prob: 0,
        mutate_prob: 0,
        spawn_percentage: 250,
    };
    let mut pop = Population::with_loss(20, settings, |ind: &OwnedGenome<Ordered<u32>>| {
        (ind.genome[0].value as f64).to_bits()
    });
    pop.initialize(|seed: u64| vec![Ordered::unweighted((seed % 1000) as u32 + 1)]);
    let before = pop.loss();
    let reported = pop.evolve();
    assert_eq!(reported, before);
    assert_eq!(pop.loss(), before);
    let reported2 = pop.evolve();
    assert_eq!(reported2, before);
}

#[test]
fn evolve_reports_pre_step_minimum() {
    // the reported loss equals the minimum over the population as it was
    // ranked, even when mutation is running
    let mut pop = Population::with_loss(
        20,
        EnvSettingsBuilder::new().mutate_prob(300).build(),
        |ind: &OwnedGenome<Ordered<u32>>| (ind.genome[0].value as f64).to_bits(),
    );
    pop.initialize(|seed: u64| vec![Ordered::weighted((seed % 1000) as u32, 2)]);
    let before = pop.loss();
    let reported = pop.evolve();
    assert_eq!(reported, before);
}

#[test]
fn convergence_scenario() {
    // forty individuals, two float loci each, minimizing the convex bowl
    // x^2 + y^2 from a bounded start around the optimum
    let mut pop = Population::with_loss(
        40,
        EnvSettings::default(),
        |ind: &OwnedGenome<Ordered<u64>>| {
            let x = f64::from_bits(ind.genome[0].value);
            let y = f64::from_bits(ind.genome[1].value);
            (x * x + y * y).to_bits()
        },
    );
    pop.initialize(|seed: u64| {
        let x = ((seed & 0xffff) as f64) / 65536.0 - 0.5;
        let y = (((seed >> 16) & 0xffff) as f64) / 65536.0 - 0.5;
        vec![Ordered::weighted(x.to_bits(), 2), Ordered::weighted(y.to_bits(), 2)]
    });
    let mut reached = false;
    for _ in 0..100_000 {
        let l = f64::from_bits(pop.evolve());
        if !(l > 0.001) {
            reached = true;
            break;
        }
    }
    assert!(reached);
    assert!(f64::from_bits(pop.loss()) <= 0.001);
}

#[test]
fn chromosome_test() {
    let mut pop: Population<OwnedGenome<Ordered<i32>>, _> = Population::with_loss(
        40,
        EnvSettings::default(),
        |indv: &OwnedGenome<Ordered<i32>>| {
            (indv.genome.iter().map(|ch| ch.value).sum::<i32>().abs() as f64).to_bits()
        },
    );
    pop.initialize(|seed: u64| {
        let gene = |k: u32| Ordered::weighted((((seed >> (12 * k)) % 10) as i32) - 5, 3);
        vec![gene(0), gene(1), gene(2), gene(3), gene(4)]
    });
    for _ in 0..100_000 {
        if !(f64::from_bits(pop.evolve()) > 0.001) {
            break;
        }
    }
    println!("{}", f64::from_bits(pop.loss()));
}

#[test]
fn trial_edge_probabilities() {
    let mut rng = rand::thread_rng();
    for _ in 0..200 {
        assert!(!genetic::random::trial(&mut rng, 0));
        assert!(genetic::random::trial(&mut rng, 1000));
    }
}

#[test]
fn new_population_then_initialize() {
    let mut pop: Population<OwnedGenome<Ordered<u32>>, ()> =
        Population::<OwnedGenome<Ordered<u32>>, ()>::new(4, EnvSettings::default());
    pop.initialize(|seed: u64| vec![Ordered::unweighted(seed as u32)]);
}
