use mars_lander_ga::geometry::Pos;
use mars_lander_ga::level::LevelData;
use mars_lander_ga::ship::{Ship, Chromosome, Gene, CHROMOSOME_SIZE};
use mars_lander_ga::game::{Game, run_genetic, advance_ship, POPULATION_COUNT, GRAVITY_MILLI};
use rand::SeedableRng;

fn p(x: i64, y: i64) -> Pos {
    Pos::from(x, y)
}

fn valley_level() -> LevelData {
    LevelData {
        pos: p(7_000_000, 5_000_000),
        angle: 0,
        power: 0,
        h_speed: 0,
        v_speed: 0,
        fuel: 550,
        map: vec![
            p(0, 3_000_000),
            p(2_000_000, 200_000),
            p(8_000_000, 200_000),
            p(13_998_000, 3_000_000),
        ],
    }
}

fn rng(seed: u64) -> rand::rngs::StdRng {
    rand::rngs::StdRng::seed_from_u64(seed)
}

#[test]
fn level_check_accepts_a_sane_level() {
    assert!(valley_level().check());
}

#[test]
fn level_check_rejects_terrain_without_a_flat_pair() {
    let mut level = valley_level();
    level.map = vec![p(0, 3_000_000), p(2_000_000, 200_000), p(13_998_000, 400_000)];
    assert!(!level.check());
}

#[test]
fn level_check_rejects_two_flat_pairs() {
    let mut level = valley_level();
    level.map = vec![
        p(0, 200_000),
        p(2_000_000, 200_000),
        p(8_000_000, 3_000_000),
        p(10_000_000, 3_000_000),
    ];
    assert!(!level.check());
}

#[test]
fn level_check_rejects_unordered_terrain() {
    let mut level = valley_level();
    level.map = vec![p(0, 200_000), p(2_000_000, 200_000), p(1_000_000, 400_000)];
    assert!(!level.check());
}

#[test]
fn setup_finds_the_landing_zone_and_measures_the_terrain() {
    let level = valley_level();
    let mut r = rng(1);
    let game = Game::setup(&level, &mut r);
    assert_eq!(game.landing_zone_index, 1);
    assert_eq!(game.landing_zone_xmin, 2_000_000);
    assert_eq!(game.landing_zone_xmax, 8_000_000);
    assert_eq!(game.landing_zone_y, 200_000);
    // 3_440_930 + 6_000_000 + 6_619_365, each the floor square root of the
    // squared segment length
    assert_eq!(game.surface_length, 16_060_295);
    assert_eq!(game.ships.len(), POPULATION_COUNT);
    assert_eq!(game.generation, 0);
    assert!(game.best_ship.is_none());
}

#[test]
fn one_generation_advances_the_counter() {
    let level = valley_level();
    let mut r = rng(2);
    let mut game = Game::setup(&level, &mut r);
    let (avg, max) = run_genetic(&mut game, &mut r);
    assert_eq!(game.generation, 1);
    assert_eq!(game.ships.len(), POPULATION_COUNT);
    assert!(avg >= 1);
    assert!(max >= avg);
    assert!(max <= 300_000);
    // the next generation starts fresh
    for s in &game.ships {
        assert!(!s.is_dead);
        assert_eq!(s.path.len(), 0);
    }
}

#[test]
fn seeded_runs_are_deterministic() {
    let level = valley_level();
    let mut r1 = rng(42);
    let mut r2 = rng(42);
    let mut g1 = Game::setup(&level, &mut r1);
    let mut g2 = Game::setup(&level, &mut r2);
    let s1 = run_genetic(&mut g1, &mut r1);
    let s2 = run_genetic(&mut g2, &mut r2);
    // identical seed, identical level: identical fitness distribution
    assert_eq!(s1, s2);
    assert_eq!(g1.ships.len(), g2.ships.len());
    for i in 0..g1.ships.len() {
        assert_eq!(g1.ships[i].chromosome.genes, g2.ships[i].chromosome.genes);
        assert_eq!(
            g1.ships[i].chromosome.fitness,
            g2.ships[i].chromosome.fitness
        );
    }
}

#[test]
fn differently_seeded_runs_differ() {
    let level = valley_level();
    let mut r1 = rng(1);
    let mut r2 = rng(99);
    let g1 = Game::setup(&level, &mut r1);
    let g2 = Game::setup(&level, &mut r2);
    let mut any_difference = false;
    for i in 0..g1.ships.len() {
        if g1.ships[i].chromosome.genes != g2.ships[i].chromosome.genes {
            any_difference = true;
        }
    }
    assert!(any_difference);
}

#[test]
fn full_elitism_reproduces_the_sorted_population() {
    let level = valley_level();
    let mut r = rng(3);
    let mut game = Game::setup(&level, &mut r);
    game.elite_percent = 100;
    game.run_simulation();
    game.evaluate();
    let elites = game.get_elites();
    assert_eq!(elites.len(), POPULATION_COUNT);
    game.generate(&mut r);
    // the new population is, genome for genome, exactly the elite
    for i in 0..POPULATION_COUNT {
        assert_eq!(game.ships[i].chromosome.genes, elites[i].chromosome.genes);
        assert_eq!(
            game.ships[i].chromosome.fitness,
            elites[i].chromosome.fitness
        );
        assert!(game.ships[i].is_elite);
    }
    // and the elite is sorted by descending fitness
    for i in 1..elites.len() {
        assert!(elites[i - 1].chromosome.fitness >= elites[i].chromosome.fitness);
    }
}

#[test]
fn elites_keep_their_fitness_verbatim() {
    let level = valley_level();
    let mut r = rng(4);
    let mut game = Game::setup(&level, &mut r);
    game.run_simulation();
    game.evaluate();
    let elites = game.get_elites();
    assert_eq!(elites.len(), 12);
    game.generate(&mut r);
    for i in 0..elites.len() {
        assert_eq!(game.ships[i].chromosome.genes, elites[i].chromosome.genes);
        assert_eq!(
            game.ships[i].chromosome.fitness,
            elites[i].chromosome.fitness
        );
        assert!(game.ships[i].is_elite);
    }
    // the bred remainder starts unevaluated
    for i in elites.len()..POPULATION_COUNT {
        assert_eq!(game.ships[i].chromosome.fitness, 0);
        assert!(!game.ships[i].is_elite);
    }
}

#[test]
fn hovering_drop_lands_as_a_solution() {
    // a candidate directly above the landing zone, no speed, zero angle:
    // a plain drop from 100 metres touches down well below the speed limits
    let level = LevelData {
        pos: p(7_000_000, 400_000),
        angle: 0,
        power: 0,
        h_speed: 0,
        v_speed: 0,
        fuel: 550,
        map: vec![p(0, 200_000), p(13_998_000, 200_000)],
    };
    let chrom = Chromosome {
        genes: vec![Gene { angle: 0, power: 0 }; CHROMOSOME_SIZE],
        fitness: 0,
    };
    let mut ship = Ship::from_genome(&level, chrom);
    let mut turn: usize = 0;
    while !ship.is_dead && turn < CHROMOSOME_SIZE {
        advance_ship(&mut ship, &level.map, 0, turn, GRAVITY_MILLI);
        turn += 1;
    }
    assert!(ship.is_dead);
    assert!(!ship.is_out);
    assert!(ship.is_solution);
    assert_eq!(ship.crash_zone_index, 0);
    // the crash point is solved exactly: straight down onto the flat ground
    assert_eq!(ship.crash_pos, p(7_000_000, 200_000));
    assert_eq!(ship.angle, 0);
    assert!(ship.v_speed >= -80_000);
    // full fuel left: top of the solution tier
    let surface = mars_lander_ga::fitness::dist_points(level.map[0], level.map[1]);
    let f = mars_lander_ga::fitness::fitness_value(&ship, &level.map, 0, surface, 550);
    assert!(200_000 < f && f <= 300_000);
    assert_eq!(f, 300_000);
}

#[test]
fn flying_off_the_map_scores_the_floor() {
    // a candidate near the left edge, drifting left fast, tilting hard and
    // throttling up: it leaves the map without ever crossing the terrain
    let level = LevelData {
        pos: p(200_000, 5_000_000),
        angle: 0,
        power: 0,
        h_speed: -200_000,
        v_speed: 0,
        fuel: 550,
        map: vec![p(0, 200_000), p(13_998_000, 200_000)],
    };
    let chrom = Chromosome {
        genes: vec![Gene { angle: 15, power: 1 }; CHROMOSOME_SIZE],
        fitness: 0,
    };
    let mut ship = Ship::from_genome(&level, chrom);
    let mut turn: usize = 0;
    while !ship.is_dead && turn < CHROMOSOME_SIZE {
        advance_ship(&mut ship, &level.map, 0, turn, GRAVITY_MILLI);
        turn += 1;
    }
    assert!(ship.is_dead);
    assert!(ship.is_out);
    assert!(!ship.is_solution);
    let surface = mars_lander_ga::fitness::dist_points(level.map[0], level.map[1]);
    let f = mars_lander_ga::fitness::fitness_value(&ship, &level.map, 0, surface, 550);
    assert_eq!(f, 1000);
}

#[test]
fn best_solution_record_persists_and_only_improves() {
    let level = valley_level();
    let mut r = rng(5);
    let mut game = Game::setup(&level, &mut r);
    let mut previous_best: i64 = -1;
    for _ in 0..3 {
        run_genetic(&mut game, &mut r);
        if let Some(b) = &game.best_ship {
            assert!(b.is_solution);
            assert!(b.chromosome.fitness >= previous_best);
            previous_best = b.chromosome.fitness;
        }
    }
}
