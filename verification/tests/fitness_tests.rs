use mars_lander_ga::geometry::Pos;
use mars_lander_ga::level::LevelData;
use mars_lander_ga::fitness::{fitness_value, calc_min_dist, dist_points};
use mars_lander_ga::ship::{Ship, Chromosome, Gene, CHROMOSOME_SIZE};

fn p(x: i64, y: i64) -> Pos {
    Pos::from(x, y)
}

// terrain with the landing zone on segment 0 and a slope behind it
fn shelf_map() -> Vec<Pos> {
    vec![p(0, 200_000), p(6_000_000, 200_000), p(13_998_000, 4_000_000)]
}

fn shelf_level() -> LevelData {
    LevelData {
        pos: p(3_000_000, 400_000),
        angle: 0,
        power: 0,
        h_speed: 0,
        v_speed: 0,
        fuel: 550,
        map: shelf_map(),
    }
}

fn dead_ship(level: &LevelData) -> Ship {
    let mut s = Ship::from_genome(
        level,
        Chromosome {
            genes: vec![Gene { angle: 0, power: 0 }; CHROMOSOME_SIZE],
            fitness: 0,
        },
    );
    s.is_dead = true;
    s
}

fn surface_of(map: &Vec<Pos>) -> i64 {
    let mut total: i64 = 0;
    for i in 0..map.len() - 1 {
        total += dist_points(map[i], map[i + 1]);
    }
    total
}

#[test]
fn escaped_candidate_scores_the_floor() {
    let level = shelf_level();
    let mut s = dead_ship(&level);
    s.is_out = true;
    let f = fitness_value(&s, &level.map, 0, surface_of(&level.map), 550);
    assert_eq!(f, 1000);
}

#[test]
fn crash_at_zone_edge_tops_the_first_tier() {
    let level = shelf_level();
    let mut s = dead_ship(&level);
    // crashed on segment 1, exactly at the vertex shared with the zone
    s.crash_zone_index = 1;
    s.crash_pos = p(6_000_000, 200_000);
    let f = fitness_value(&s, &level.map, 0, surface_of(&level.map), 550);
    // distance zero, no speed: 1.0 + 99.0 points
    assert_eq!(f, 100_000);
}

#[test]
fn farther_crashes_score_less() {
    let level = shelf_level();
    let surface = surface_of(&level.map);
    let mut near = dead_ship(&level);
    near.crash_zone_index = 1;
    near.crash_pos = p(7_000_000, 690_000);
    let mut far = dead_ship(&level);
    far.crash_zone_index = 1;
    far.crash_pos = p(12_000_000, 3_100_000);
    let fn_ = fitness_value(&near, &level.map, 0, surface, 550);
    let ff = fitness_value(&far, &level.map, 0, surface, 550);
    assert!(fn_ > ff);
    assert!(1 <= ff && ff <= 100_000);
}

#[test]
fn fast_crashes_are_penalised() {
    let level = shelf_level();
    let surface = surface_of(&level.map);
    let mut slow = dead_ship(&level);
    slow.crash_zone_index = 1;
    slow.crash_pos = p(7_000_000, 690_000);
    let mut fast = slow.duplicate();
    // 150 m/s sideways: above the 100 m/s penalty threshold
    fast.h_speed = 300_000;
    let fs = fitness_value(&slow, &level.map, 0, surface, 550);
    let ff = fitness_value(&fast, &level.map, 0, surface, 550);
    // penalty is 0.1 * speed: 15 points = 15_000 milli-points
    assert_eq!(fs - ff, 15_000);
}

#[test]
fn gentle_zone_crash_tops_the_second_tier() {
    let level = shelf_level();
    let mut s = dead_ship(&level);
    s.crash_zone_index = 0;
    s.crash_pos = p(3_000_000, 200_000);
    // slow but tilted, so not a solution
    s.angle = 10;
    let f = fitness_value(&s, &level.map, 0, surface_of(&level.map), 550);
    assert_eq!(f, 200_000);
}

#[test]
fn zone_crash_loses_points_for_excess_speeds() {
    let level = shelf_level();
    let surface = surface_of(&level.map);
    let mut s = dead_ship(&level);
    s.crash_zone_index = 0;
    s.crash_pos = p(3_000_000, 200_000);
    s.angle = 10;
    // 260 m/s sideways, 270 m/s down: both scores shrink
    s.h_speed = 520_000;
    s.v_speed = -540_000;
    let f = fitness_value(&s, &level.map, 0, surface, 550);
    // x: (1_000_000 - 520_000) * 5 / 96 = 25_000
    // y: (-540_000 + 1_000_000) * 5 / 92 = 25_000
    assert_eq!(f, 100_000 + 25_000 + 25_000);
}

#[test]
fn solution_scores_by_remaining_fuel() {
    let level = shelf_level();
    let surface = surface_of(&level.map);
    let mut s = dead_ship(&level);
    s.crash_zone_index = 0;
    s.crash_pos = p(3_000_000, 200_000);
    s.is_solution = true;
    s.fuel = 275;
    let f = fitness_value(&s, &level.map, 0, surface, 550);
    // half the fuel left: 200.0 + 50.0 points
    assert_eq!(f, 250_000);
    s.fuel = 550;
    let full = fitness_value(&s, &level.map, 0, surface, 550);
    assert_eq!(full, 300_000);
    s.fuel = 0;
    let empty = fitness_value(&s, &level.map, 0, surface, 550);
    // the tier floor keeps even a dry tank strictly above tier two
    assert_eq!(empty, 200_001);
}

#[test]
fn tiers_never_overlap() {
    let level = shelf_level();
    let surface = surface_of(&level.map);
    let mut out = dead_ship(&level);
    out.is_out = true;
    let mut crash_far = dead_ship(&level);
    crash_far.crash_zone_index = 1;
    crash_far.crash_pos = p(12_000_000, 3_100_000);
    crash_far.v_speed = -600_000;
    let mut crash_zone = dead_ship(&level);
    crash_zone.crash_zone_index = 0;
    crash_zone.crash_pos = p(3_000_000, 200_000);
    crash_zone.angle = 10;
    crash_zone.h_speed = 520_000;
    crash_zone.v_speed = -540_000;
    let mut sol = dead_ship(&level);
    sol.crash_zone_index = 0;
    sol.crash_pos = p(3_000_000, 200_000);
    sol.is_solution = true;
    sol.fuel = 0;
    let f_out = fitness_value(&out, &level.map, 0, surface, 550);
    let f_a = fitness_value(&crash_far, &level.map, 0, surface, 550);
    let f_b = fitness_value(&crash_zone, &level.map, 0, surface, 550);
    let f_c = fitness_value(&sol, &level.map, 0, surface, 550);
    assert!(1 <= f_a && f_a <= 100_000);
    assert!(100_000 < f_b && f_b <= 200_000);
    assert!(200_000 < f_c && f_c <= 300_000);
    assert_eq!(f_out, 1000);
    assert!(f_c > f_b && f_b > f_a);
}

#[test]
fn min_dist_walks_the_polyline() {
    let map = vec![
        p(0, 200_000),
        p(2_000_000, 200_000),
        p(5_000_000, 4_200_000),
        p(8_000_000, 200_001),
        p(13_998_000, 300_000),
    ];
    // landing zone is segment 0; crash on segment 3
    let crash = p(9_000_000, 216_667);
    let d = calc_min_dist(&map, 0, crash, 3);
    // offset to the vertex at index 3 plus the two full segments back to
    // the zone's right edge at index 1
    let offset = dist_points(crash, map[3]);
    let expected = offset + dist_points(map[1], map[2]) + dist_points(map[2], map[3]);
    assert_eq!(d, expected);
    // a crash on the landing zone itself is at distance zero
    assert_eq!(calc_min_dist(&map, 0, p(1_000_000, 200_000), 0), 0);
}
