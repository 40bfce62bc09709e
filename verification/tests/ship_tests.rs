use mars_lander_ga::geometry::Pos;
use mars_lander_ga::level::LevelData;
use mars_lander_ga::ship::{Ship, Chromosome, Gene, CHROMOSOME_SIZE};
use rand::SeedableRng;

fn flat_level() -> LevelData {
    LevelData {
        pos: Pos::from(7_000_000, 400_000),
        angle: 0,
        power: 0,
        h_speed: 0,
        v_speed: 0,
        fuel: 550,
        map: vec![Pos::from(0, 200_000), Pos::from(13_998_000, 200_000)],
    }
}

fn zero_genome() -> Chromosome {
    Chromosome {
        genes: vec![Gene { angle: 0, power: 0 }; CHROMOSOME_SIZE],
        fitness: 0,
    }
}

#[test]
fn fresh_ship_takes_level_state() {
    let level = flat_level();
    let ship = Ship::from_genome(&level, zero_genome());
    assert_eq!(ship.pos, Pos::from(7_000_000, 400_000));
    assert_eq!(ship.fuel, 550);
    assert!(!ship.is_dead && !ship.is_solution && !ship.is_out && !ship.is_elite);
    assert_eq!(ship.path.len(), 0);
}

#[test]
fn free_fall_step_is_exact() {
    let level = flat_level();
    let mut ship = Ship::from_genome(&level, zero_genome());
    ship.simulate(0, 0, 3711);
    // power 0: vertical acceleration is -gravity, horizontal zero
    assert_eq!(ship.pos.y, 400_000 - 3711);
    assert_eq!(ship.v_speed, -7422);
    assert_eq!(ship.pos.x, 7_000_000);
    assert_eq!(ship.h_speed, 0);
    assert_eq!(ship.fuel, 550);
    assert_eq!(ship.path.len(), 1);
}

#[test]
fn upright_thrust_step_is_exact() {
    let level = flat_level();
    let mut ship = Ship::from_genome(&level, zero_genome());
    // throttle up by one: power 1, cos 0 degrees = 1.000
    ship.simulate(0, 1, 3711);
    assert_eq!(ship.power, 1);
    assert_eq!(ship.fuel, 549);
    assert_eq!(ship.pos.y, 400_000 + (1000 - 3711));
    assert_eq!(ship.v_speed, 2 * (1000 - 3711));
    assert_eq!(ship.h_speed, 0);
}

#[test]
fn tilted_thrust_pushes_sideways() {
    let level = flat_level();
    let mut ship = Ship::from_genome(&level, zero_genome());
    ship.simulate(15, 1, 3711);
    // angle 15: cos = 966, sin = 259 (milli), power 1
    assert_eq!(ship.angle, 15);
    assert_eq!(ship.pos.y, 400_000 + (966 - 3711));
    assert_eq!(ship.pos.x, 7_000_000 - 259);
    assert_eq!(ship.h_speed, -2 * 259);
}

#[test]
fn angle_and_power_deltas_are_clamped() {
    let level = flat_level();
    let mut ship = Ship::from_genome(&level, zero_genome());
    // a wild instruction is clamped to +15 / +1
    ship.simulate(100, 9, 3711);
    assert_eq!(ship.angle, 15);
    assert_eq!(ship.power, 1);
}

#[test]
fn angle_accumulator_stays_within_ninety_degrees() {
    let level = flat_level();
    let mut ship = Ship::from_genome(&level, zero_genome());
    for _ in 0..10 {
        ship.simulate(15, 0, 3711);
    }
    // 10 * 15 = 150 would exceed the clamp
    assert_eq!(ship.angle, 90);
    let mut ship2 = Ship::from_genome(&level, zero_genome());
    for _ in 0..10 {
        ship2.simulate(-15, 0, 3711);
    }
    assert_eq!(ship2.angle, -90);
}

#[test]
fn power_accumulator_stays_within_four() {
    let level = flat_level();
    let mut ship = Ship::from_genome(&level, zero_genome());
    for _ in 0..6 {
        ship.simulate(0, 1, 3711);
    }
    assert_eq!(ship.power, 4);
}

#[test]
fn fuel_never_goes_negative_and_zero_kills_thrust() {
    let mut level = flat_level();
    level.fuel = 6;
    let mut ship = Ship::from_genome(&level, zero_genome());
    // burn at full throttle: 1 + 2 + 3 = 6 units over three turns
    ship.simulate(0, 1, 3711);
    ship.simulate(0, 1, 3711);
    ship.simulate(0, 1, 3711);
    assert_eq!(ship.fuel, 0);
    // tank empty: thrust forced to zero, fuel stays exactly zero
    ship.simulate(0, 1, 3711);
    assert_eq!(ship.power, 0);
    assert_eq!(ship.fuel, 0);
    ship.simulate(0, 1, 3711);
    assert_eq!(ship.power, 0);
    assert_eq!(ship.fuel, 0);
}

#[test]
fn fuel_clamps_at_zero_when_burn_exceeds_remainder() {
    let mut level = flat_level();
    level.fuel = 1;
    let mut ship = Ship::from_genome(&level, zero_genome());
    ship.simulate(0, 1, 3711);
    ship.simulate(0, 1, 3711);
    assert_eq!(ship.fuel, 0);
    assert!(ship.fuel >= 0);
}

#[test]
fn out_of_map_detection() {
    let level = flat_level();
    let mut ship = Ship::from_genome(&level, zero_genome());
    assert!(!ship.is_out_of_map());
    ship.pos = Pos::from(-1, 400_000);
    assert!(ship.is_out_of_map());
    ship.pos = Pos::from(14_000_000, 400_000);
    assert!(ship.is_out_of_map());
    ship.pos = Pos::from(7_000_000, 6_000_000);
    assert!(ship.is_out_of_map());
}

#[test]
fn duplicate_copies_every_field() {
    let level = flat_level();
    let mut ship = Ship::from_genome(&level, zero_genome());
    ship.simulate(5, 1, 3711);
    let copy = ship.duplicate();
    assert_eq!(copy.pos, ship.pos);
    assert_eq!(copy.angle, ship.angle);
    assert_eq!(copy.power, ship.power);
    assert_eq!(copy.fuel, ship.fuel);
    assert_eq!(copy.path, ship.path);
    assert_eq!(copy.chromosome.genes, ship.chromosome.genes);
}

#[test]
fn random_genome_respects_gene_bounds() {
    let mut rng = rand::rngs::StdRng::seed_from_u64(11);
    let c = Chromosome::random(&mut rng);
    assert_eq!(c.genes.len(), CHROMOSOME_SIZE);
    for g in &c.genes {
        assert!(-15 <= g.angle && g.angle <= 15);
        assert!(-1 <= g.power && g.power <= 1);
    }
    assert_eq!(c.fitness, 0);
}
