//! The fitness evaluator: scores a terminated candidate into one of three
//! strictly ordered tiers above a floor value, in milli-points.
//!
//! - floor, exactly 1000 (1.0 point): the candidate escaped the map;
//! - tier one, (0, 100] points: crashed outside the landing zone, scored by
//!   the along-terrain distance to the zone, with a penalty for fast crashes;
//! - tier two, (100, 200] points: crashed inside the zone but too fast or
//!   tilted, scored by how far the speeds exceed the safe limits;
//! - tier three, (200, 300] points: a solution, scored by remaining fuel.

use vstd::prelude::*;
use crate::geometry::{Pos, pos_bounded};
use crate::level::{in_map_s, wf_map, is_flat_pair, dist_s, seg_len_s, total_len_s};
use crate::nums::{
    clamp_s, clamp_i64, sqrt_floor, isqrt, lemma_mul_bounds, lemma_div_bound, lemma_div_le,
    lemma_sqrt_floor_lt, lemma_sqrt_floor_is_sqrt,
};
use crate::ship::Ship;

verus! {

/// One terrain segment is between 1 and 16_000_000 units long.
pub proof fn lemma_seg_len_bounds(map: Seq<Pos>, i: int)
    requires
        wf_map(map),
        0 <= i < map.len() - 1,
    ensures
        1 <= seg_len_s(map, i) <= 16_000_000,
{
    let dx = map[i].x - map[i + 1].x;
    let dy = map[i].y - map[i + 1].y;
    assert(in_map_s(map[i]));
    assert(in_map_s(map[i + 1]));
    assert(map[i].x < map[i + 1].x);
    lemma_mul_bounds(dx, dx, 14_000_000, 14_000_000);
    lemma_mul_bounds(dy, dy, 6_000_000, 6_000_000);
    assert(dx * dx >= 1 && dy * dy >= 0) by (nonlinear_arith)
        requires
            dx <= -1,
    ;
    let n = (dx * dx + dy * dy) as nat;
    lemma_sqrt_floor_lt(n, 16_000_000);
    lemma_sqrt_floor_is_sqrt(n);
    if sqrt_floor(n) == 0 {
        assert((n as int) < (0int + 1) * (0int + 1) ==> (n as int) < 1) by (nonlinear_arith);
    }
}

/// The first `n` segments together are between `n` and `n * 16_000_000`
/// units long.
pub proof fn lemma_total_len_bounds(map: Seq<Pos>, n: int)
    requires
        wf_map(map),
        0 <= n <= map.len() - 1,
    ensures
        n <= total_len_s(map, n) <= n * 16_000_000,
    decreases n,
{
    if n > 0 {
        lemma_total_len_bounds(map, n - 1);
        lemma_seg_len_bounds(map, n - 1);
    }
}

/// Summed length of the terrain segments `a` to `b` exclusive.
pub open spec fn seg_sum_s(map: Seq<Pos>, a: int, b: int) -> int {
    total_len_s(map, b) - total_len_s(map, a)
}

/// Euclidean distance between two bounded points.
pub fn dist_points(a: Pos, b: Pos) -> (d: i64)
    requires
        pos_bounded(a),
        pos_bounded(b),
    ensures
        d == dist_s(a, b),
        0 <= d <= 300_000_000,
{
    let dx: i64 = a.x - b.x;
    let dy: i64 = a.y - b.y;
    proof {
        lemma_mul_bounds(dx as int, dx as int, 200_000_000, 200_000_000);
        lemma_mul_bounds(dy as int, dy as int, 200_000_000, 200_000_000);
        assert(dx * dx >= 0 && dy * dy >= 0) by (nonlinear_arith);
    }
    let sq: i64 = dx * dx + dy * dy;
    proof {
        lemma_sqrt_floor_lt((sq as u64) as nat, 300_000_001);
    }
    let r: u64 = isqrt(sq as u64);
    r as i64
}

/// The along-terrain distance from a crash point to the nearer edge of the
/// landing zone: the straight distance to the adjacent terrain vertex on the
/// landing-zone side, plus the full segments between that vertex and the
/// zone's near edge. Zero for a crash on the landing zone itself.
pub open spec fn min_dist_s(map: Seq<Pos>, lz: int, cpos: Pos, ci: int) -> int {
    if ci == lz {
        0
    } else if ci > lz {
        dist_s(cpos, map[ci]) + seg_sum_s(map, lz + 1, ci)
    } else {
        dist_s(cpos, map[ci + 1]) + seg_sum_s(map, ci + 1, lz)
    }
}

/// The along-terrain distance from the crash point `crash_pos` on terrain
/// segment `crash_zone_index` to the nearer edge of the landing zone at
/// `lz_index`.
pub fn calc_min_dist(map: &Vec<Pos>, lz_index: usize, crash_pos: Pos, crash_zone_index: usize) -> (d:
    i64)
    requires
        wf_map(map@),
        is_flat_pair(map@, lz_index as int),
        crash_zone_index < map@.len() - 1,
        pos_bounded(crash_pos),
    ensures
        d == min_dist_s(map@, lz_index as int, crash_pos, crash_zone_index as int),
        0 <= d <= 5_000_000_000,
{
    let n: usize = map.len();
    if crash_zone_index == lz_index {
        return 0;
    }
    if crash_zone_index > lz_index {
        let offset: i64 = dist_points(crash_pos, map[crash_zone_index]);
        let mut acc: i64 = 0;
        let mut j: usize = lz_index + 1;
        while j < crash_zone_index
            invariant
                wf_map(map@),
                lz_index + 1 <= j <= crash_zone_index < map@.len() - 1,
                acc == seg_sum_s(map@, lz_index + 1, j as int),
                0 <= acc <= (j - lz_index - 1) * 16_000_000,
            decreases crash_zone_index - j,
        {
            proof {
                lemma_seg_len_bounds(map@, j as int);
            }
            let sl: i64 = dist_points(map[j], map[j + 1]);
            acc = acc + sl;
            j = j + 1;
        }
        offset + acc
    } else {
        let offset: i64 = dist_points(crash_pos, map[crash_zone_index + 1]);
        let mut acc: i64 = 0;
        let mut j: usize = crash_zone_index + 1;
        while j < lz_index
            invariant
                wf_map(map@),
                crash_zone_index + 1 <= j <= lz_index,
                lz_index < map@.len() - 1,
                acc == seg_sum_s(map@, crash_zone_index + 1, j as int),
                0 <= acc <= (j - crash_zone_index - 1) * 16_000_000,
            decreases lz_index - j,
        {
            proof {
                lemma_seg_len_bounds(map@, j as int);
            }
            let sl: i64 = dist_points(map[j], map[j + 1]);
            acc = acc + sl;
            j = j + 1;
        }
        offset + acc
    }
}

/// The crash speed: euclidean norm of the two speed components.
pub open spec fn crash_speed_s(h: int, v: int) -> int {
    sqrt_floor((h * h + v * v) as nat) as int
}

/// The fitness of a terminated candidate, in milli-points. See the module
/// documentation for the tiers.
pub open spec fn fitness_s(ship: Ship, map: Seq<Pos>, lz: int, surface_len: int, init_fuel: int) -> int {
    if ship.is_out {
        1000
    } else if ship.crash_zone_index != lz {
        let dist = min_dist_s(map, lz, ship.crash_pos, ship.crash_zone_index as int);
        let dist_score = 99_000 - (99_000 * dist) / surface_len;
        let spd = crash_speed_s(ship.h_speed as int, ship.v_speed as int);
        let penalty = if spd > 200_000 {
            spd / 20
        } else {
            0
        };
        clamp_s(1000 + dist_score - penalty, 1, 100_000)
    } else if !ship.is_solution {
        let habs = if ship.h_speed >= 0 {
            ship.h_speed as int
        } else {
            -(ship.h_speed as int)
        };
        let x_score = if habs <= 40_000 {
            50_000int
        } else if habs >= 1_000_000 {
            0int
        } else {
            ((1_000_000 - habs) * 5) / 96
        };
        let y_score = if ship.v_speed >= -80_000 {
            50_000int
        } else if ship.v_speed <= -1_000_000 {
            0int
        } else {
            ((ship.v_speed + 1_000_000) * 5) / 92
        };
        let sc = x_score + y_score;
        100_000 + (if sc >= 1 {
            sc
        } else {
            1int
        })
    } else {
        let fs = (100_000 * ship.fuel) / init_fuel;
        200_000 + (if fs >= 1 {
            fs
        } else {
            1int
        })
    }
}

/// The tiers are strictly ordered and never overlap: the floor is 1000
/// exactly; a crash outside the zone scores in (0, 100_000]; a crash inside
/// the zone in (100_000, 200_000]; a solution in (200_000, 300_000]. Every
/// fitness is strictly positive.
pub proof fn lemma_fitness_tiers(ship: Ship, map: Seq<Pos>, lz: int, surface_len: int, init_fuel: int)
    requires
        wf_map(map),
        is_flat_pair(map, lz),
        0 <= ship.crash_zone_index < map.len() - 1,
        pos_bounded(ship.crash_pos),
        surface_len >= 1,
        init_fuel >= 1,
        0 <= ship.fuel <= init_fuel,
    ensures
        1 <= fitness_s(ship, map, lz, surface_len, init_fuel) <= 300_000,
        ship.is_out ==> fitness_s(ship, map, lz, surface_len, init_fuel) == 1000,
        !ship.is_out && ship.crash_zone_index != lz ==> 1 <= fitness_s(
            ship,
            map,
            lz,
            surface_len,
            init_fuel,
        ) <= 100_000,
        !ship.is_out && ship.crash_zone_index == lz && !ship.is_solution ==> 100_000 < fitness_s(
            ship,
            map,
            lz,
            surface_len,
            init_fuel,
        ) <= 200_000,
        !ship.is_out && ship.crash_zone_index == lz && ship.is_solution ==> 200_000 < fitness_s(
            ship,
            map,
            lz,
            surface_len,
            init_fuel,
        ) <= 300_000,
{
    if ship.is_out {
    } else if ship.crash_zone_index != lz {
    } else if !ship.is_solution {
        let habs = if ship.h_speed >= 0 {
            ship.h_speed as int
        } else {
            -(ship.h_speed as int)
        };
        if 40_000 < habs < 1_000_000 {
            lemma_div_le((1_000_000 - habs) * 5, 96);
            lemma_div_bound((1_000_000 - habs) * 5, 96, 50_000);
        }
        if -1_000_000 < ship.v_speed < -80_000 {
            lemma_div_le((ship.v_speed + 1_000_000) * 5, 92);
            lemma_div_bound((ship.v_speed + 1_000_000) * 5, 92, 50_000);
        }
    } else {
        lemma_div_le(100_000 * ship.fuel, init_fuel);
        lemma_div_bound(100_000 * ship.fuel, init_fuel, 100_001);
    }
}

/// The fitness of one terminated candidate.
pub fn fitness_value(
    ship: &Ship,
    map: &Vec<Pos>,
    lz_index: usize,
    surface_length: i64,
    initial_fuel: i64,
) -> (f: i64)
    requires
        ship.wf(),
        wf_map(map@),
        is_flat_pair(map@, lz_index as int),
        ship.crash_zone_index < map@.len() - 1,
        1 <= surface_length <= 4_100_000_000,
        1 <= initial_fuel <= 100_000,
        ship.fuel <= initial_fuel,
    ensures
        f == fitness_s(*ship, map@, lz_index as int, surface_length as int, initial_fuel as int),
        1 <= f <= 300_000,
{
    proof {
        lemma_fitness_tiers(
            *ship,
            map@,
            lz_index as int,
            surface_length as int,
            initial_fuel as int,
        );
    }
    if ship.is_out {
        1000
    } else if ship.crash_zone_index != lz_index {
        let dist: i64 = calc_min_dist(map, lz_index, ship.crash_pos, ship.crash_zone_index);
        let q: i64 = (((99_000 * dist) as u64) / (surface_length as u64)) as i64;
        proof {
            lemma_div_le(99_000 * dist, surface_length as int);
        }
        let dist_score: i64 = 99_000 - q;
        let hs: i64 = ship.h_speed;
        let vs: i64 = ship.v_speed;
        proof {
            lemma_mul_bounds(hs as int, hs as int, 4_000_000, 4_000_000);
            lemma_mul_bounds(vs as int, vs as int, 4_000_000, 4_000_000);
            assert(hs * hs >= 0 && vs * vs >= 0) by (nonlinear_arith);
            lemma_sqrt_floor_lt(((hs * hs + vs * vs) as u64) as nat, 6_000_000);
        }
        let spd: i64 = isqrt((hs * hs + vs * vs) as u64) as i64;
        let penalty: i64 = if spd > 200_000 {
            ((spd as u64) / 20) as i64
        } else {
            0
        };
        proof {
            lemma_div_le(spd as int, 20);
        }
        clamp_i64(1000 + dist_score - penalty, 1, 100_000)
    } else if !ship.is_solution {
        let habs: i64 = if ship.h_speed >= 0 {
            ship.h_speed
        } else {
            -ship.h_speed
        };
        let x_score: i64 = if habs <= 40_000 {
            50_000
        } else if habs >= 1_000_000 {
            0
        } else {
            ((((1_000_000 - habs) * 5) as u64) / 96) as i64
        };
        let y_score: i64 = if ship.v_speed >= -80_000 {
            50_000
        } else if ship.v_speed <= -1_000_000 {
            0
        } else {
            ((((ship.v_speed + 1_000_000) * 5) as u64) / 92) as i64
        };
        let sc: i64 = x_score + y_score;
        100_000 + (if sc >= 1 {
            sc
        } else {
            1
        })
    } else {
        let fs: i64 = (((100_000 * ship.fuel) as u64) / (initial_fuel as u64)) as i64;
        200_000 + (if fs >= 1 {
            fs
        } else {
            1
        })
    }
}

} // verus!
