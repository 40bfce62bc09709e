use mars_lander_ga::genetic::{sort_pairs, select_index, blend_val, crossover, mutate};
use mars_lander_ga::ship::{Chromosome, Gene, CHROMOSOME_SIZE};
use mars_lander_ga::config::Config;
use rand::SeedableRng;

fn rng(seed: u64) -> rand::rngs::StdRng {
    rand::rngs::StdRng::seed_from_u64(seed)
}

#[test]
fn sort_pairs_orders_by_descending_fitness() {
    let pairs = vec![(10, 0), (300, 1), (5, 2), (200, 3)];
    let sorted = sort_pairs(&pairs);
    assert_eq!(sorted, vec![(300, 1), (200, 3), (10, 0), (5, 2)]);
}

#[test]
fn sort_pairs_is_stable_on_ties() {
    let pairs = vec![(7, 0), (9, 1), (7, 2), (9, 3)];
    let sorted = sort_pairs(&pairs);
    assert_eq!(sorted, vec![(9, 1), (9, 3), (7, 0), (7, 2)]);
}

#[test]
fn select_index_picks_the_first_cumulative_above_the_threshold() {
    let cum = vec![5, 10, 15];
    assert_eq!(select_index(&cum, 0), 0);
    assert_eq!(select_index(&cum, 4), 0);
    assert_eq!(select_index(&cum, 5), 1);
    assert_eq!(select_index(&cum, 7), 1);
    assert_eq!(select_index(&cum, 14), 2);
}

#[test]
fn blend_val_interpolates_and_rounds() {
    // ratio fully on one parent
    assert_eq!(blend_val(15, -15, 1000), 15);
    assert_eq!(blend_val(15, -15, 0), -15);
    // the midpoint of opposite genes cancels out
    assert_eq!(blend_val(15, -15, 500), 0);
    // rounding half away from zero
    assert_eq!(blend_val(1, 0, 250), 0);
    assert_eq!(blend_val(1, 0, 750), 1);
    assert_eq!(blend_val(-1, 0, 750), -1);
}

#[test]
fn crossover_children_stay_within_gene_bounds() {
    let a = Chromosome {
        genes: vec![Gene { angle: 15, power: 1 }; CHROMOSOME_SIZE],
        fitness: 123,
    };
    let b = Chromosome {
        genes: vec![Gene { angle: -15, power: -1 }; CHROMOSOME_SIZE],
        fitness: 456,
    };
    let mut r = rng(8);
    let (c0, c1) = crossover(&a, &b, &mut r);
    assert_eq!(c0.genes.len(), CHROMOSOME_SIZE);
    assert_eq!(c1.genes.len(), CHROMOSOME_SIZE);
    assert_eq!(c0.fitness, 0);
    assert_eq!(c1.fitness, 0);
    for i in 0..CHROMOSOME_SIZE {
        assert!(-15 <= c0.genes[i].angle && c0.genes[i].angle <= 15);
        assert!(-1 <= c0.genes[i].power && c0.genes[i].power <= 1);
        // complementary blends of opposite parents mirror each other
        assert_eq!(c0.genes[i].angle, -c1.genes[i].angle);
    }
}

#[test]
fn crossover_children_lie_between_their_parents() {
    let a = Chromosome {
        genes: vec![Gene { angle: 10, power: 1 }; CHROMOSOME_SIZE],
        fitness: 0,
    };
    let b = Chromosome {
        genes: vec![Gene { angle: 2, power: 0 }; CHROMOSOME_SIZE],
        fitness: 0,
    };
    let mut r = rng(12);
    let (c0, c1) = crossover(&a, &b, &mut r);
    for i in 0..CHROMOSOME_SIZE {
        // every blend stays inside the interval the parents span
        assert!(2 <= c0.genes[i].angle && c0.genes[i].angle <= 10);
        assert!(2 <= c1.genes[i].angle && c1.genes[i].angle <= 10);
        assert!(0 <= c0.genes[i].power && c0.genes[i].power <= 1);
        assert!(0 <= c1.genes[i].power && c1.genes[i].power <= 1);
    }
}

#[test]
fn zero_mutation_rate_leaves_the_genome_unchanged() {
    let mut c = Chromosome {
        genes: vec![Gene { angle: 7, power: 1 }; CHROMOSOME_SIZE],
        fitness: 5,
    };
    let before = c.genes.clone();
    let mut r = rng(9);
    mutate(&mut c, 0, &mut r);
    assert_eq!(c.genes, before);
    assert_eq!(c.fitness, 5);
}

#[test]
fn full_mutation_rate_resamples_genes() {
    let mut c = Chromosome {
        genes: vec![Gene { angle: 7, power: 1 }; CHROMOSOME_SIZE],
        fitness: 5,
    };
    let before = c.genes.clone();
    let mut r = rng(10);
    mutate(&mut c, 10_000, &mut r);
    // every gene was replaced by a fresh sample: with 180 positions the
    // genome cannot plausibly survive unchanged
    assert_ne!(c.genes, before);
    for g in &c.genes {
        assert!(-15 <= g.angle && g.angle <= 15);
        assert!(-1 <= g.power && g.power <= 1);
    }
}

#[test]
fn config_carries_its_fields() {
    let c = Config::new(String::from("level.txt"), 250);
    assert_eq!(c.level_file, "level.txt");
    assert_eq!(c.time_limit, 250);
}
