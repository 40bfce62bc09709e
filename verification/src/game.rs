//! The evolution engine: one `Game` holds the level, the derived landing
//! zone, the population, and the best solution found so far. One call of
//! `run_genetic` runs one full generation: simulate every candidate to its
//! end, evaluate fitness, then reproduce with elitism.

use vstd::prelude::*;
use crate::geometry::{
    Pos, pos_bounded, clone_points, do_intersect, find_intersection_point, segments_intersect_s,
    line_det_s, intersection_point_s, line_det_nonzero,
};
use crate::level::{LevelData, wf_map, is_flat_pair, in_map_s, total_len_s, MAP_WIDTH, MAP_HEIGHT};
use crate::fitness::{fitness_s, fitness_value, lemma_total_len_bounds, lemma_seg_len_bounds, dist_points};
use crate::ship::{
    Ship, Chromosome, Gene, CHROMOSOME_SIZE, next_angle_s, next_power_s, next_fuel_s, v_acc_s,
    h_acc_s,
};
use crate::genetic::{sort_desc_s, sorted_desc, sort_pairs, lemma_sort_desc, select_index, crossover, mutate};
use crate::rng::rand_range_i64;

verus! {

/// Number of candidates in every generation.
pub const POPULATION_COUNT: usize = 100;

/// Gravity of the simulated world, in milli-metres per turn squared.
pub const GRAVITY_MILLI: i64 = 3711;

/// Share of the population cloned unchanged into the next generation, in
/// percent, rounded up.
pub const ELITE_PERCENT: u32 = 12;

/// Probability that one gene of a child is replaced by a fresh random gene,
/// in parts per ten thousand.
pub const MUTATION_RATE_BP: u32 = 100;

/// How many candidates the elite of a population of `n` holds at an elite
/// share of `pct` percent: the ceiling of `n * pct / 100`.
pub open spec fn elite_count_s(n: int, pct: int) -> int {
    (n * pct + 99) / 100
}

/// At a hundred percent the elite is the whole population.
pub proof fn lemma_elite_count_full(n: int)
    requires
        0 <= n,
    ensures
        elite_count_s(n, 100) == n,
{
    assert((n * 100 + 99) / 100 == n) by (nonlinear_arith)
        requires
            0 <= n,
    ;
}

/// The fitness of each candidate paired with its position, the input of the
/// elite sort.
pub open spec fn fit_pairs_s(ships: Seq<Ship>) -> Seq<(i64, usize)> {
    Seq::new(ships.len(), |i: int| (ships[i].chromosome.fitness, i as usize))
}

/// The first terrain segment at or after `i` that the travel segment
/// `p0 p1` meets, scanned in terrain order.
pub open spec fn first_hit_from_s(map: Seq<Pos>, p0: Pos, p1: Pos, i: int) -> Option<int>
    decreases map.len() - i,
{
    if i < 0 || i + 1 >= map.len() {
        None
    } else if segments_intersect_s(map[i], map[i + 1], p0, p1) {
        Some(i)
    } else {
        first_hit_from_s(map, p0, p1, i + 1)
    }
}

/// The first terrain segment the travel segment `p0 p1` meets, if any.
pub open spec fn first_hit_s(map: Seq<Pos>, p0: Pos, p1: Pos) -> Option<int> {
    first_hit_from_s(map, p0, p1, 0)
}

/// The crash point of a collision: the line intersection where the lines
/// are not parallel, the previous position where they are (a collinear
/// touch has no single crossing point to solve for).
pub open spec fn crash_pos_s(a: Pos, b: Pos, c: Pos, d: Pos) -> (int, int) {
    if line_det_s(a, b, c, d) != 0 {
        intersection_point_s(a, b, c, d)
    } else {
        (c.x as int, c.y as int)
    }
}

/// The mathematical state of one candidate's simulation, as plain values:
/// what one turn reads and writes, stripped of the recorded path.
pub ghost struct SimState {
    /// Horizontal position.
    pub x: int,
    /// Vertical position.
    pub y: int,
    /// Horizontal speed.
    pub h_speed: int,
    /// Vertical speed.
    pub v_speed: int,
    /// Orientation, whole degrees.
    pub angle: int,
    /// Thrust power.
    pub power: int,
    /// Remaining fuel.
    pub fuel: int,
    /// Crashed or escaped.
    pub is_dead: bool,
    /// Escaped the map.
    pub is_out: bool,
    /// Touched down successfully.
    pub is_solution: bool,
    /// Terrain segment of the crash.
    pub crash_zone_index: int,
    /// Crash point, horizontal.
    pub crash_x: int,
    /// Crash point, vertical.
    pub crash_y: int,
}

/// The mathematical state a candidate is in.
pub open spec fn sim_state_of(s: Ship) -> SimState {
    SimState {
        x: s.pos.x as int,
        y: s.pos.y as int,
        h_speed: s.h_speed as int,
        v_speed: s.v_speed as int,
        angle: s.angle as int,
        power: s.power as int,
        fuel: s.fuel as int,
        is_dead: s.is_dead,
        is_out: s.is_out,
        is_solution: s.is_solution,
        crash_zone_index: s.crash_zone_index as int,
        crash_x: s.crash_pos.x as int,
        crash_y: s.crash_pos.y as int,
    }
}

/// One turn of the simulation as a mathematical function: a terminal
/// candidate is left untouched; a living one is stepped by its gene, then
/// dies on the first terrain segment its move crossed, or as escaped
/// outside the map.
pub open spec fn sim_step_s(map: Seq<Pos>, lz: int, gravity: int, st: SimState, gene: Gene) -> SimState {
    if st.is_dead {
        st
    } else {
        let na = next_angle_s(st.angle, gene.angle as int);
        let np = next_power_s(st.power, st.fuel, gene.power as int);
        let nf = next_fuel_s(st.fuel, np);
        let va = v_acc_s(np, na, gravity);
        let ha = h_acc_s(np, na);
        let ny = st.y + st.v_speed + va;
        let nv = st.v_speed + 2 * va;
        let nx = st.x + st.h_speed + ha;
        let nh = st.h_speed + 2 * ha;
        let p0 = Pos { x: st.x as i64, y: st.y as i64 };
        let p1 = Pos { x: nx as i64, y: ny as i64 };
        let moved = SimState {
            x: nx,
            y: ny,
            h_speed: nh,
            v_speed: nv,
            angle: na,
            power: np,
            fuel: nf,
            ..st
        };
        match first_hit_s(map, p0, p1) {
            Some(i) => {
                let cp = crash_pos_s(map[i], map[i + 1], p0, p1);
                SimState {
                    is_dead: true,
                    is_out: false,
                    is_solution: i == lz && na == 0 && nv >= -80_000 && -40_000 <= nh <= 40_000,
                    crash_zone_index: i,
                    crash_x: cp.0,
                    crash_y: cp.1,
                    ..moved
                }
            },
            None => {
                let out = !(0 <= nx < MAP_WIDTH as int && 0 <= ny < MAP_HEIGHT as int);
                SimState { is_dead: out, is_out: out, ..moved }
            },
        }
    }
}

/// The simulation after the first `t` turns, as a mathematical function of
/// the initial state and the genome.
pub open spec fn sim_run_s(
    map: Seq<Pos>,
    lz: int,
    gravity: int,
    st: SimState,
    genes: Seq<Gene>,
    t: int,
) -> SimState
    decreases t,
{
    if t <= 0 {
        st
    } else {
        sim_step_s(map, lz, gravity, sim_run_s(map, lz, gravity, st, genes, t - 1), genes[t - 1])
    }
}

/// The fitness of a terminated candidate, computed from its mathematical
/// state alone.
pub open spec fn fitness_state_s(
    st: SimState,
    map: Seq<Pos>,
    lz: int,
    surface_len: int,
    init_fuel: int,
) -> int {
    fitness_s(
        Ship {
            chromosome: arbitrary(),
            pos: Pos { x: st.x as i64, y: st.y as i64 },
            angle: st.angle as i32,
            power: st.power as i32,
            h_speed: st.h_speed as i64,
            v_speed: st.v_speed as i64,
            fuel: st.fuel as i64,
            is_dead: st.is_dead,
            is_solution: st.is_solution,
            crash_pos: Pos { x: st.crash_x as i64, y: st.crash_y as i64 },
            path: arbitrary(),
            is_elite: false,
            crash_zone_index: st.crash_zone_index as usize,
            is_out: st.is_out,
        },
        map,
        lz,
        surface_len,
        init_fuel,
    )
}

/// A terminal candidate stays in its terminal state for every later turn.
pub proof fn lemma_sim_run_stops(
    map: Seq<Pos>,
    lz: int,
    gravity: int,
    st: SimState,
    genes: Seq<Gene>,
    t: int,
    t2: int,
)
    requires
        0 <= t <= t2,
        sim_run_s(map, lz, gravity, st, genes, t).is_dead,
    ensures
        sim_run_s(map, lz, gravity, st, genes, t2) == sim_run_s(map, lz, gravity, st, genes, t),
    decreases t2 - t,
{
    if t2 > t {
        lemma_sim_run_stops(map, lz, gravity, st, genes, t, t2 - 1);
    }
}

/// A candidate's fitness depends only on its mathematical state: the two
/// readings agree.
pub proof fn lemma_fitness_state(ship: Ship, map: Seq<Pos>, lz: int, surface_len: int, init_fuel: int)
    ensures
        fitness_s(ship, map, lz, surface_len, init_fuel) == fitness_state_s(
            sim_state_of(ship),
            map,
            lz,
            surface_len,
            init_fuel,
        ),
{
}

/// Advance one living candidate by one turn: simulate with this turn's
/// gene, then look for the first terrain segment the move crossed; on a hit
/// the candidate dies where the trajectory met the terrain and the
/// landing-success predicate is decided, exactly; with no hit a candidate
/// outside the map dies as escaped.
pub fn advance_ship(ship: &mut Ship, map: &Vec<Pos>, lz_index: usize, turn: usize, gravity: i64)
    requires
        old(ship).wf(),
        !old(ship).is_dead,
        in_map_s(old(ship).pos),
        old(ship).path@.len() < CHROMOSOME_SIZE,
        turn < old(ship).chromosome.genes@.len(),
        old(ship).crash_zone_index < map@.len() - 1,
        0 < gravity <= 4_000,
        wf_map(map@),
        is_flat_pair(map@, lz_index as int),
    ensures
        ({
            let da = old(ship).chromosome.genes@[turn as int].angle as int;
            let dp = old(ship).chromosome.genes@[turn as int].power as int;
            &&& final(ship).angle == next_angle_s(old(ship).angle as int, da)
            &&& final(ship).power == next_power_s(
                old(ship).power as int,
                old(ship).fuel as int,
                dp,
            )
            &&& final(ship).fuel == next_fuel_s(old(ship).fuel as int, final(ship).power as int)
        }),
        final(ship).pos.y == old(ship).pos.y + old(ship).v_speed + v_acc_s(
            final(ship).power as int,
            final(ship).angle as int,
            gravity as int,
        ),
        final(ship).v_speed == old(ship).v_speed + 2 * v_acc_s(
            final(ship).power as int,
            final(ship).angle as int,
            gravity as int,
        ),
        final(ship).pos.x == old(ship).pos.x + old(ship).h_speed + h_acc_s(
            final(ship).power as int,
            final(ship).angle as int,
        ),
        final(ship).h_speed == old(ship).h_speed + 2 * h_acc_s(
            final(ship).power as int,
            final(ship).angle as int,
        ),
        final(ship).path@ == old(ship).path@.push(final(ship).pos),
        final(ship).chromosome.genes@ == old(ship).chromosome.genes@,
        final(ship).chromosome.fitness == old(ship).chromosome.fitness,
        final(ship).is_elite == old(ship).is_elite,
        ({
            let hit = first_hit_s(map@, old(ship).pos, final(ship).pos);
            &&& (hit matches Some(i) ==> {
                &&& final(ship).is_dead
                &&& !final(ship).is_out
                &&& final(ship).crash_zone_index == i
                &&& (final(ship).crash_pos.x as int, final(ship).crash_pos.y as int)
                    == crash_pos_s(map@[i], map@[i + 1], old(ship).pos, final(ship).pos)
                &&& (final(ship).is_solution <==> (i == lz_index && final(ship).angle == 0
                    && final(ship).v_speed >= -80_000 && -40_000 <= final(ship).h_speed
                    <= 40_000))
            })
            &&& (hit is None ==> {
                &&& final(ship).crash_pos == old(ship).crash_pos
                &&& final(ship).crash_zone_index == old(ship).crash_zone_index
                &&& !final(ship).is_solution
                &&& (in_map_s(final(ship).pos) ==> !final(ship).is_dead && !final(ship).is_out)
                &&& (!in_map_s(final(ship).pos) ==> final(ship).is_dead && final(ship).is_out)
            })
        }),
        final(ship).wf(),
        final(ship).solution_sound(lz_index as int),
        final(ship).fuel <= old(ship).fuel,
        final(ship).crash_zone_index < map@.len() - 1,
        !final(ship).is_dead ==> in_map_s(final(ship).pos),
{
    let prev: Pos = ship.pos;
    let gene: Gene = ship.chromosome.genes[turn];
    ship.simulate(gene.angle, gene.power, gravity);

    let nm1: usize = map.len() - 1;
    let mut index: usize = 0;
    let mut hit_idx: usize = nm1;
    while index < nm1 && hit_idx == nm1
        invariant
            nm1 == map@.len() - 1,
            1 <= nm1,
            0 <= index <= nm1,
            hit_idx <= nm1,
            wf_map(map@),
            pos_bounded(prev),
            pos_bounded(ship.pos),
            hit_idx == nm1 ==> first_hit_s(map@, prev, ship.pos) == first_hit_from_s(
                map@,
                prev,
                ship.pos,
                index as int,
            ),
            hit_idx < nm1 ==> first_hit_s(map@, prev, ship.pos) == Some(hit_idx as int),
        decreases nm1 - index + (if hit_idx == nm1 { 1int } else { 0int }),
    {
        if do_intersect(&map[index], &map[index + 1], &prev, &ship.pos) {
            hit_idx = index;
        } else {
            index = index + 1;
        }
    }

    if hit_idx < nm1 {
        let a: Pos = map[hit_idx];
        let b: Pos = map[hit_idx + 1];
        if line_det_nonzero(&a, &b, &prev, &ship.pos) {
            ship.crash_pos = find_intersection_point(&a, &b, &prev, &ship.pos);
        } else {
            ship.crash_pos = prev;
        }
        ship.crash_zone_index = hit_idx;
        if hit_idx == lz_index && ship.angle == 0 && ship.v_speed >= -80_000 && ship.h_speed
            >= -40_000 && ship.h_speed <= 40_000 {
            ship.is_solution = true;
        }
        ship.is_dead = true;
    } else {
        if ship.is_out_of_map() {
            ship.is_out = true;
            ship.is_dead = true;
        }
    }
    proof {
        let st0 = sim_state_of(*old(ship));
        let g0 = old(ship).chromosome.genes@[turn as int];
        assert(Pos { x: st0.x as i64, y: st0.y as i64 } == old(ship).pos);
        assert(sim_state_of(*ship) == sim_step_s(map@, lz_index as int, gravity as int, st0, g0));
    }
}

/// Two candidates that agree on everything but the recorded fitness.
pub open spec fn same_but_fitness(a: Ship, b: Ship) -> bool {
    &&& a.chromosome.genes@ == b.chromosome.genes@
    &&& a.pos == b.pos
    &&& a.angle == b.angle
    &&& a.power == b.power
    &&& a.h_speed == b.h_speed
    &&& a.v_speed == b.v_speed
    &&& a.fuel == b.fuel
    &&& a.is_dead == b.is_dead
    &&& a.is_solution == b.is_solution
    &&& a.crash_pos == b.crash_pos
    &&& a.path@ == b.path@
    &&& a.is_elite == b.is_elite
    &&& a.crash_zone_index == b.crash_zone_index
    &&& a.is_out == b.is_out
}

/// Scoring is deterministic: two candidates that ended in the same terminal
/// state, against the same terrain and the same initial fuel, always receive
/// the same fitness. Together with the exact step contracts of the
/// simulator, a whole generation's fitness distribution is a function of the
/// genomes and the level alone.
pub proof fn lemma_fitness_deterministic(
    a: Ship,
    b: Ship,
    map: Seq<Pos>,
    lz: int,
    surface_len: int,
    init_fuel: int,
)
    requires
        same_but_fitness(a, b),
    ensures
        fitness_s(a, map, lz, surface_len, init_fuel) == fitness_s(
            b,
            map,
            lz,
            surface_len,
            init_fuel,
        ),
{
}

/// The fitness of the recorded best solution, or a value below every real
/// fitness when none is recorded yet.
pub open spec fn best_fitness_s(b: Option<Ship>) -> int {
    match b {
        Some(s) => s.chromosome.fitness as int,
        None => -1,
    }
}

/// The landing-success flag is sound: in a well-formed search state, every
/// candidate flagged as a solution crashed on the landing-zone segment,
/// upright, descending no faster than 40 m/s, drifting no faster than
/// 20 m/s.
pub proof fn lemma_solution_flag_sound(g: Game, i: int)
    requires
        g.wf(),
        0 <= i < g.ships@.len(),
        g.ships@[i].is_solution,
    ensures
        g.ships@[i].crash_zone_index == g.landing_zone_index,
        g.ships@[i].angle == 0,
        g.ships@[i].v_speed >= -80_000,
        -40_000 <= g.ships@[i].h_speed <= 40_000,
{
    assert(g.wf_ship_at(i));
}

/// The whole search state.
pub struct Game {
    /// The level as handed over by the parser.
    pub level_data: LevelData,
    /// Gravity, milli-metres per turn squared.
    pub gravity: i64,
    /// The terrain polyline.
    pub map: Vec<Pos>,
    /// Left edge of the landing zone.
    pub landing_zone_xmin: i64,
    /// Right edge of the landing zone.
    pub landing_zone_xmax: i64,
    /// Height of the landing zone.
    pub landing_zone_y: i64,
    /// Index of the flat terrain segment.
    pub landing_zone_index: usize,
    /// Total length of the terrain polyline.
    pub surface_length: i64,
    /// The current population.
    pub ships: Vec<Ship>,
    /// The turn the simulation of the current generation has reached.
    pub turn: usize,
    /// Mutation probability, parts per ten thousand.
    pub mutation_rate_bp: u32,
    /// Elite share, percent.
    pub elite_percent: u32,
    /// How many generations have been bred.
    pub generation: i64,
    /// The best valid solution over all generations, if any.
    pub best_ship: Option<Ship>,
}

impl Game {
    /// Every candidate keeps its physical invariant, the soundness of the
    /// solution flag, fuel below the initial fill, a crash index that can be
    /// looked up, and a position inside the map while it lives.
    pub open spec fn wf_ship_at(self, i: int) -> bool {
        &&& self.ships@[i].wf()
        &&& self.ships@[i].solution_sound(self.landing_zone_index as int)
        &&& self.ships@[i].fuel <= self.level_data.fuel
        &&& self.ships@[i].crash_zone_index < self.map@.len() - 1
        &&& (!self.ships@[i].is_dead ==> in_map_s(self.ships@[i].pos))
    }

    /// The search-state invariant.
    pub open spec fn wf(self) -> bool {
        &&& self.level_data.wf()
        &&& self.map@ == self.level_data.map@
        &&& 0 < self.gravity <= 4_000
        &&& is_flat_pair(self.map@, self.landing_zone_index as int)
        &&& self.landing_zone_xmin == self.map@[self.landing_zone_index as int].x
        &&& self.landing_zone_xmax == self.map@[self.landing_zone_index as int + 1].x
        &&& self.landing_zone_y == self.map@[self.landing_zone_index as int].y
        &&& self.surface_length == total_len_s(self.map@, self.map@.len() - 1)
        &&& 1 <= self.surface_length <= 4_100_000_000
        &&& self.ships@.len() == POPULATION_COUNT
        &&& forall|i: int| 0 <= i < self.ships@.len() ==> self.wf_ship_at(i)
        &&& match self.best_ship {
            Some(b) => {
                &&& b.wf()
                &&& b.is_solution
                &&& b.solution_sound(self.landing_zone_index as int)
                &&& b.crash_zone_index < self.map@.len() - 1
                &&& b.fuel <= self.level_data.fuel
            },
            None => true,
        }
        &&& self.mutation_rate_bp <= 10_000
        &&& 1 <= self.elite_percent <= 100
        &&& self.turn <= CHROMOSOME_SIZE
    }

    /// Build the search state for a level: find the landing zone (the unique
    /// flat terrain pair), measure the terrain, and breed a fully random
    /// first population.
    pub fn setup(level_data: &LevelData, rng: &mut rand::rngs::StdRng) -> (g: Game)
        requires
            level_data.wf(),
        ensures
            g.wf(),
            g.generation == 0,
            g.turn == 0,
            g.best_ship is None,
            g.gravity == GRAVITY_MILLI,
            g.mutation_rate_bp == MUTATION_RATE_BP,
            g.elite_percent == ELITE_PERCENT,
            g.level_data.pos == level_data.pos,
            g.level_data.fuel == level_data.fuel,
            g.map@ == level_data.map@,
            forall|i: int|
                0 <= i < g.ships@.len() ==> {
                    let sh = #[trigger] g.ships@[i];
                    &&& !sh.is_dead && !sh.is_solution && !sh.is_out && !sh.is_elite
                    &&& sh.path@.len() == 0
                    &&& sh.pos == level_data.pos
                    &&& sh.angle == level_data.angle
                    &&& sh.power == level_data.power
                    &&& sh.h_speed == level_data.h_speed
                    &&& sh.v_speed == level_data.v_speed
                    &&& sh.fuel == level_data.fuel
                    &&& sh.chromosome.fitness == 0
                },
    {
        let n: usize = level_data.map.len();
        let mut landing_zone_xmin: i64 = 0;
        let mut landing_zone_xmax: i64 = 0;
        let mut landing_zone_y: i64 = 0;
        let mut landing_zone_index: usize = 0;
        let mut found: bool = false;
        let mut i: usize = 0;
        while i < n - 1
            invariant
                level_data.wf(),
                n == level_data.map@.len(),
                2 <= n,
                0 <= i <= n - 1,
                !found ==> forall|j: int| 0 <= j < i ==> !is_flat_pair(level_data.map@, j),
                found ==> {
                    &&& is_flat_pair(level_data.map@, landing_zone_index as int)
                    &&& landing_zone_index < i
                    &&& landing_zone_xmin == level_data.map@[landing_zone_index as int].x
                    &&& landing_zone_xmax == level_data.map@[landing_zone_index as int + 1].x
                    &&& landing_zone_y == level_data.map@[landing_zone_index as int].y
                },
            decreases n - 1 - i,
        {
            if level_data.map[i].y == level_data.map[i + 1].y {
                landing_zone_xmin = level_data.map[i].x;
                landing_zone_xmax = level_data.map[i + 1].x;
                landing_zone_y = level_data.map[i].y;
                landing_zone_index = i;
                found = true;
            }
            i = i + 1;
        }
        proof {
            if !found {
                let w = choose|w: int| is_flat_pair(level_data.map@, w);
                assert(0 <= w < n - 1);
                assert(false);
            }
        }

        let mut surface_length: i64 = 0;
        let mut k: usize = 0;
        while k < n - 1
            invariant
                level_data.wf(),
                n == level_data.map@.len(),
                2 <= n <= 256,
                0 <= k <= n - 1,
                surface_length == total_len_s(level_data.map@, k as int),
                k <= surface_length || k == 0,
                0 <= surface_length <= k * 16_000_000,
            decreases n - 1 - k,
        {
            proof {
                lemma_seg_len_bounds(level_data.map@, k as int);
            }
            let sl: i64 = dist_points(level_data.map[k], level_data.map[k + 1]);
            surface_length = surface_length + sl;
            k = k + 1;
        }
        proof {
            lemma_total_len_bounds(level_data.map@, n as int - 1);
        }

        let mut ships: Vec<Ship> = Vec::new();
        let mut s: usize = 0;
        while s < POPULATION_COUNT
            invariant
                level_data.wf(),
                0 <= s <= POPULATION_COUNT,
                ships@.len() == s,
                forall|j: int|
                    0 <= j < s ==> {
                        let sh = #[trigger] ships@[j];
                        &&& sh.wf()
                        &&& !sh.is_dead && !sh.is_solution && !sh.is_out && !sh.is_elite
                        &&& sh.path@.len() == 0
                        &&& sh.pos == level_data.pos
                        &&& sh.angle == level_data.angle
                        &&& sh.power == level_data.power
                        &&& sh.h_speed == level_data.h_speed
                        &&& sh.v_speed == level_data.v_speed
                        &&& sh.fuel == level_data.fuel
                        &&& sh.chromosome.fitness == 0
                        &&& sh.crash_zone_index == 0
                    },
            decreases POPULATION_COUNT - s,
        {
            let chromosome = Chromosome::random(rng);
            let ship = Ship::from_genome(level_data, chromosome);
            ships.push(ship);
            s = s + 1;
        }

        let g = Game {
            level_data: LevelData {
                pos: level_data.pos,
                angle: level_data.angle,
                power: level_data.power,
                h_speed: level_data.h_speed,
                v_speed: level_data.v_speed,
                fuel: level_data.fuel,
                map: clone_points(&level_data.map),
            },
            gravity: GRAVITY_MILLI,
            map: clone_points(&level_data.map),
            landing_zone_xmin,
            landing_zone_xmax,
            landing_zone_y,
            landing_zone_index,
            surface_length,
            ships,
            turn: 0,
            mutation_rate_bp: MUTATION_RATE_BP,
            elite_percent: ELITE_PERCENT,
            generation: 0,
            best_ship: None,
        };
        g
    }

    /// Whether any candidate of the population is still flying.
    pub fn any_alive(&self) -> (r: bool)
        ensures
            r == exists|i: int| 0 <= i < self.ships@.len() && !(#[trigger] self.ships@[i]).is_dead,
    {
        let n: usize = self.ships.len();
        let mut i: usize = 0;
        while i < n
            invariant
                n == self.ships@.len(),
                0 <= i <= n,
                forall|j: int| 0 <= j < i ==> (#[trigger] self.ships@[j]).is_dead,
            decreases n - i,
        {
            if !self.ships[i].is_dead {
                return true;
            }
            i = i + 1;
        }
        false
    }

    /// Simulate the whole population turn by turn until every candidate is
    /// terminal or the genome is exhausted. Genomes and fitness are left
    /// untouched; every candidate keeps the search invariant, and a
    /// candidate flagged as a solution really satisfies the landing
    /// predicate.
    pub fn run_simulation(&mut self)
        requires
            old(self).wf(),
            forall|i: int|
                0 <= i < old(self).ships@.len() ==> !(#[trigger] old(self).ships@[i]).is_dead
                    ==> old(self).ships@[i].path@.len() == 0,
        ensures
            final(self).wf(),
            final(self).ships@.len() == old(self).ships@.len(),
            forall|i: int|
                0 <= i < final(self).ships@.len() ==> (#[trigger] final(self).ships@[i]).is_dead
                    || final(self).ships@[i].path@.len() == CHROMOSOME_SIZE,
            forall|i: int|
                0 <= i < final(self).ships@.len() ==> (#[trigger] final(self).ships@[
                    i
                ]).chromosome.genes@ == old(self).ships@[i].chromosome.genes@,
            forall|i: int|
                0 <= i < final(self).ships@.len() ==> (#[trigger] final(self).ships@[
                    i
                ]).chromosome.fitness == old(self).ships@[i].chromosome.fitness,
            final(self).level_data == old(self).level_data,
            final(self).map@ == old(self).map@,
            final(self).landing_zone_index == old(self).landing_zone_index,
            final(self).landing_zone_xmin == old(self).landing_zone_xmin,
            final(self).landing_zone_xmax == old(self).landing_zone_xmax,
            final(self).landing_zone_y == old(self).landing_zone_y,
            final(self).surface_length == old(self).surface_length,
            final(self).gravity == old(self).gravity,
            final(self).mutation_rate_bp == old(self).mutation_rate_bp,
            final(self).elite_percent == old(self).elite_percent,
            final(self).generation == old(self).generation,
            final(self).best_ship == old(self).best_ship,
            // the terminal state of every candidate is a mathematical
            // function of its genome, its initial state and the level
            forall|i: int|
                0 <= i < final(self).ships@.len() ==> sim_state_of(
                    #[trigger] final(self).ships@[i],
                ) == sim_run_s(
                    old(self).map@,
                    old(self).landing_zone_index as int,
                    old(self).gravity as int,
                    sim_state_of(old(self).ships@[i]),
                    old(self).ships@[i].chromosome.genes@,
                    CHROMOSOME_SIZE as int,
                ),
    {
        self.turn = 0;
        proof {
            assert forall|j: int| 0 <= j < self.ships@.len() implies self.wf_ship_at(j) by {
                assert(old(self).wf_ship_at(j));
            }
        }
        while self.turn < CHROMOSOME_SIZE && self.any_alive()
            invariant
                self.wf(),
                self.turn <= CHROMOSOME_SIZE,
                forall|i: int|
                    0 <= i < self.ships@.len() ==> !(#[trigger] self.ships@[i]).is_dead
                        ==> self.ships@[i].path@.len() == self.turn,
                self.ships@.len() == old(self).ships@.len(),
                forall|i: int|
                    0 <= i < self.ships@.len() ==> (#[trigger] self.ships@[i]).chromosome.genes@
                        == old(self).ships@[i].chromosome.genes@,
                forall|i: int|
                    0 <= i < self.ships@.len() ==> (#[trigger] self.ships@[i]).chromosome.fitness
                        == old(self).ships@[i].chromosome.fitness,
                self.level_data == old(self).level_data,
                self.map@ == old(self).map@,
                self.landing_zone_index == old(self).landing_zone_index,
                self.landing_zone_xmin == old(self).landing_zone_xmin,
                self.landing_zone_xmax == old(self).landing_zone_xmax,
                self.landing_zone_y == old(self).landing_zone_y,
                self.surface_length == old(self).surface_length,
                self.gravity == old(self).gravity,
                self.mutation_rate_bp == old(self).mutation_rate_bp,
                self.elite_percent == old(self).elite_percent,
                self.generation == old(self).generation,
                self.best_ship == old(self).best_ship,
                forall|k: int|
                    0 <= k < self.ships@.len() ==> sim_state_of(#[trigger] self.ships@[k])
                        == sim_run_s(
                        old(self).map@,
                        old(self).landing_zone_index as int,
                        old(self).gravity as int,
                        sim_state_of(old(self).ships@[k]),
                        old(self).ships@[k].chromosome.genes@,
                        self.turn as int,
                    ),
            decreases CHROMOSOME_SIZE - self.turn,
        {
            let n: usize = self.ships.len();
            let cur_turn: usize = self.turn;
            let mut i: usize = 0;
            while i < n
                invariant
                    self.wf(),
                    n == self.ships@.len(),
                    n == old(self).ships@.len(),
                    0 <= i <= n,
                    self.turn == cur_turn,
                    cur_turn < CHROMOSOME_SIZE,
                    forall|j: int|
                        0 <= j < i ==> !(#[trigger] self.ships@[j]).is_dead ==> self.ships@[
                            j
                        ].path@.len() == cur_turn + 1,
                    forall|j: int|
                        i <= j < n ==> !(#[trigger] self.ships@[j]).is_dead ==> self.ships@[
                            j
                        ].path@.len() == cur_turn,
                    forall|j: int|
                        0 <= j < n ==> (#[trigger] self.ships@[j]).chromosome.genes@ == old(
                            self,
                        ).ships@[j].chromosome.genes@,
                    forall|j: int|
                        0 <= j < n ==> (#[trigger] self.ships@[j]).chromosome.fitness == old(
                            self,
                        ).ships@[j].chromosome.fitness,
                    self.level_data == old(self).level_data,
                    self.map@ == old(self).map@,
                    self.landing_zone_index == old(self).landing_zone_index,
                    self.landing_zone_xmin == old(self).landing_zone_xmin,
                    self.landing_zone_xmax == old(self).landing_zone_xmax,
                    self.landing_zone_y == old(self).landing_zone_y,
                    self.surface_length == old(self).surface_length,
                    self.gravity == old(self).gravity,
                    self.mutation_rate_bp == old(self).mutation_rate_bp,
                    self.elite_percent == old(self).elite_percent,
                    self.generation == old(self).generation,
                    self.best_ship == old(self).best_ship,
                    forall|k: int|
                        0 <= k < i ==> sim_state_of(#[trigger] self.ships@[k]) == sim_run_s(
                            old(self).map@,
                            old(self).landing_zone_index as int,
                            old(self).gravity as int,
                            sim_state_of(old(self).ships@[k]),
                            old(self).ships@[k].chromosome.genes@,
                            cur_turn + 1 as int,
                        ),
                    forall|k: int|
                        i <= k < n ==> sim_state_of(#[trigger] self.ships@[k]) == sim_run_s(
                            old(self).map@,
                            old(self).landing_zone_index as int,
                            old(self).gravity as int,
                            sim_state_of(old(self).ships@[k]),
                            old(self).ships@[k].chromosome.genes@,
                            cur_turn as int,
                        ),
                decreases n - i,
            {
                if !self.ships[i].is_dead {
                    proof {
                        assert(self.wf_ship_at(i as int));
                    }
                    let ghost pre = self.ships@;
                    let ghost pre_self = *self;
                    advance_ship(
                        &mut self.ships[i],
                        &self.map,
                        self.landing_zone_index,
                        cur_turn,
                        self.gravity,
                    );
                    proof {
                        assert forall|j: int| 0 <= j < n implies self.wf_ship_at(j) by {
                            if j != i {
                                assert(self.ships@[j] == pre[j]);
                                assert(pre_self.wf_ship_at(j));
                            } else {
                                assert(self.ships@[i as int].wf());
                                assert(self.ships@[i as int].fuel <= pre[i as int].fuel);
                            }
                        }
                        assert(sim_state_of(self.ships@[i as int]) == sim_step_s(
                            old(self).map@,
                            old(self).landing_zone_index as int,
                            old(self).gravity as int,
                            sim_run_s(
                                old(self).map@,
                                old(self).landing_zone_index as int,
                                old(self).gravity as int,
                                sim_state_of(old(self).ships@[i as int]),
                                old(self).ships@[i as int].chromosome.genes@,
                                cur_turn as int,
                            ),
                            old(self).ships@[i as int].chromosome.genes@[cur_turn as int],
                        ));
                    }
                } else {
                    proof {
                        assert(sim_run_s(
                            old(self).map@,
                            old(self).landing_zone_index as int,
                            old(self).gravity as int,
                            sim_state_of(old(self).ships@[i as int]),
                            old(self).ships@[i as int].chromosome.genes@,
                            cur_turn as int,
                        ).is_dead);
                    }
                }
                i = i + 1;
            }
            let ghost before_tick = *self;
            self.turn = cur_turn + 1;
            proof {
                assert forall|j: int| 0 <= j < self.ships@.len() implies self.wf_ship_at(j) by {
                    assert(before_tick.wf_ship_at(j));
                }
            }
        }
        proof {
            assert forall|k: int| 0 <= k < self.ships@.len() implies sim_state_of(
                #[trigger] self.ships@[k],
            ) == sim_run_s(
                old(self).map@,
                old(self).landing_zone_index as int,
                old(self).gravity as int,
                sim_state_of(old(self).ships@[k]),
                old(self).ships@[k].chromosome.genes@,
                CHROMOSOME_SIZE as int,
            ) by {
                if self.turn < CHROMOSOME_SIZE {
                    // the loop ended because no candidate is alive
                    assert(self.ships@[k].is_dead);
                    lemma_sim_run_stops(
                        old(self).map@,
                        old(self).landing_zone_index as int,
                        old(self).gravity as int,
                        sim_state_of(old(self).ships@[k]),
                        old(self).ships@[k].chromosome.genes@,
                        self.turn as int,
                        CHROMOSOME_SIZE as int,
                    );
                }
            }
        }
    }

    /// The fitness of the candidate at `i`, against the unique landing zone.
    pub open spec fn eval_fit_s(self, i: int) -> int {
        fitness_s(
            self.ships@[i],
            self.map@,
            self.landing_zone_index as int,
            self.surface_length as int,
            self.level_data.fuel as int,
        )
    }

    /// Summed fitness of the first `n` candidates, once evaluated.
    pub open spec fn sum_fit_s(self, n: int) -> int
        decreases n,
    {
        if n <= 0 {
            0
        } else {
            self.sum_fit_s(n - 1) + self.eval_fit_s(n - 1)
        }
    }

    /// Largest fitness among the first `n` candidates, once evaluated;
    /// zero when there are none.
    pub open spec fn max_fit_s(self, n: int) -> int
        decreases n,
    {
        if n <= 0 {
            0
        } else {
            let m = self.max_fit_s(n - 1);
            if self.eval_fit_s(n - 1) > m {
                self.eval_fit_s(n - 1)
            } else {
                m
            }
        }
    }

    /// The fitness the candidate at `i` will have earned once it has been
    /// simulated to its terminal state: a function of the genome, the
    /// initial state and the level alone.
    pub open spec fn gen_fit_s(self, i: int) -> int {
        fitness_state_s(
            sim_run_s(
                self.map@,
                self.landing_zone_index as int,
                self.gravity as int,
                sim_state_of(self.ships@[i]),
                self.ships@[i].chromosome.genes@,
                CHROMOSOME_SIZE as int,
            ),
            self.map@,
            self.landing_zone_index as int,
            self.surface_length as int,
            self.level_data.fuel as int,
        )
    }

    /// Summed fitness the first `n` candidates will have earned.
    pub open spec fn gen_sum_fit_s(self, n: int) -> int
        decreases n,
    {
        if n <= 0 {
            0
        } else {
            self.gen_sum_fit_s(n - 1) + self.gen_fit_s(n - 1)
        }
    }

    /// Largest fitness the first `n` candidates will have earned; zero when
    /// there are none.
    pub open spec fn gen_max_fit_s(self, n: int) -> int
        decreases n,
    {
        if n <= 0 {
            0
        } else {
            let m = self.gen_max_fit_s(n - 1);
            if self.gen_fit_s(n - 1) > m {
                self.gen_fit_s(n - 1)
            } else {
                m
            }
        }
    }

    /// Score every candidate of the terminated generation and update the
    /// best-solution record: a strictly better valid solution replaces it,
    /// anything else leaves it untouched. Returns the truncated average and
    /// the maximum fitness of the generation, for reporting.
    pub fn evaluate(&mut self) -> (stats: (i64, i64))
        requires
            old(self).wf(),
        ensures
            final(self).wf(),
            final(self).ships@.len() == old(self).ships@.len(),
            forall|i: int|
                0 <= i < final(self).ships@.len() ==> (#[trigger] final(self).ships@[
                    i
                ]).chromosome.fitness == old(self).eval_fit_s(i),
            forall|i: int|
                0 <= i < final(self).ships@.len() ==> same_but_fitness(
                    #[trigger] final(self).ships@[i],
                    old(self).ships@[i],
                ),
            forall|i: int|
                0 <= i < final(self).ships@.len() ==> 1 <= (#[trigger] final(self).ships@[
                    i
                ]).chromosome.fitness <= 300_000,
            stats.0 == old(self).sum_fit_s(POPULATION_COUNT as int) / (POPULATION_COUNT as int),
            stats.1 == old(self).max_fit_s(POPULATION_COUNT as int),
            // the record only ever improves, and covers every solution found
            best_fitness_s(final(self).best_ship) >= best_fitness_s(old(self).best_ship),
            forall|i: int|
                0 <= i < final(self).ships@.len() ==> ((#[trigger] final(self).ships@[
                    i
                ]).is_solution ==> best_fitness_s(final(self).best_ship) >= final(self).ships@[
                    i
                ].chromosome.fitness),
            // nothing strictly better found: the record is untouched
            (forall|i: int|
                0 <= i < final(self).ships@.len() ==> ((#[trigger] final(self).ships@[
                    i
                ]).is_solution ==> final(self).ships@[i].chromosome.fitness <= best_fitness_s(
                    old(self).best_ship,
                ))) ==> final(self).best_ship == old(self).best_ship,
            // a new record comes verbatim from a solution of this generation
            (final(self).best_ship matches Some(b) ==> (b.chromosome.fitness > best_fitness_s(
                old(self).best_ship,
            ) ==> exists|i: int|
                0 <= i < final(self).ships@.len() && (#[trigger] final(self).ships@[
                    i
                ]).is_solution && final(self).ships@[i].chromosome.fitness == b.chromosome.fitness
                    && final(self).ships@[i].chromosome.genes@ == b.chromosome.genes@)),
            final(self).best_ship is None ==> old(self).best_ship is None,
            final(self).level_data == old(self).level_data,
            final(self).map@ == old(self).map@,
            final(self).landing_zone_index == old(self).landing_zone_index,
            final(self).landing_zone_xmin == old(self).landing_zone_xmin,
            final(self).landing_zone_xmax == old(self).landing_zone_xmax,
            final(self).landing_zone_y == old(self).landing_zone_y,
            final(self).surface_length == old(self).surface_length,
            final(self).gravity == old(self).gravity,
            final(self).mutation_rate_bp == old(self).mutation_rate_bp,
            final(self).elite_percent == old(self).elite_percent,
            final(self).generation == old(self).generation,
            final(self).turn == old(self).turn,
    {
        let n: usize = self.ships.len();
        let mut total: i64 = 0;
        let mut max_f: i64 = 0;
        let mut i: usize = 0;
        while i < n
            invariant
                self.wf(),
                n == self.ships@.len(),
                n == old(self).ships@.len(),
                n == POPULATION_COUNT,
                0 <= i <= n,
                forall|j: int|
                    0 <= j < i ==> (#[trigger] self.ships@[j]).chromosome.fitness == old(
                        self,
                    ).eval_fit_s(j),
                forall|j: int|
                    0 <= j < i ==> 1 <= (#[trigger] self.ships@[j]).chromosome.fitness <= 300_000,
                forall|j: int|
                    0 <= j < n ==> same_but_fitness(#[trigger] self.ships@[j], old(self).ships@[j]),
                forall|j: int|
                    i <= j < n ==> (#[trigger] self.ships@[j]).chromosome.fitness == old(
                        self,
                    ).ships@[j].chromosome.fitness,
                total == old(self).sum_fit_s(i as int),
                0 <= total <= i * 300_000,
                max_f == old(self).max_fit_s(i as int),
                0 <= max_f <= 300_000,
                self.level_data == old(self).level_data,
                self.map@ == old(self).map@,
                self.landing_zone_index == old(self).landing_zone_index,
                self.landing_zone_xmin == old(self).landing_zone_xmin,
                self.landing_zone_xmax == old(self).landing_zone_xmax,
                self.landing_zone_y == old(self).landing_zone_y,
                self.surface_length == old(self).surface_length,
                self.gravity == old(self).gravity,
                self.mutation_rate_bp == old(self).mutation_rate_bp,
                self.elite_percent == old(self).elite_percent,
                self.generation == old(self).generation,
                self.turn == old(self).turn,
                self.best_ship == old(self).best_ship,
            decreases n - i,
        {
            proof {
                assert(self.wf_ship_at(i as int));
                assert(same_but_fitness(self.ships@[i as int], old(self).ships@[i as int]));
            }
            let f: i64 = fitness_value(
                &self.ships[i],
                &self.map,
                self.landing_zone_index,
                self.surface_length,
                self.level_data.fuel,
            );
            let ghost pre = self.ships@;
            let ghost pre_self = *self;
            let sref = &mut self.ships[i];
            sref.chromosome.fitness = f;
            proof {
                assert(fitness_s(
                    pre[i as int],
                    pre_self.map@,
                    pre_self.landing_zone_index as int,
                    pre_self.surface_length as int,
                    pre_self.level_data.fuel as int,
                ) == old(self).eval_fit_s(i as int));
                assert forall|j: int| 0 <= j < n implies self.wf_ship_at(j) by {
                    if j != i {
                        assert(self.ships@[j] == pre[j]);
                    }
                    assert(pre_self.wf_ship_at(j));
                }
            }
            total = total + f;
            if f > max_f {
                max_f = f;
            }
            i = i + 1;
        }

        let mut b: usize = 0;
        let ghost mid_self = *self;
        while b < n
            invariant
                self.wf(),
                n == self.ships@.len(),
                0 <= b <= n,
                self.ships@ == mid_self.ships@,
                forall|j: int|
                    0 <= j < n ==> 1 <= (#[trigger] self.ships@[j]).chromosome.fitness <= 300_000,
                best_fitness_s(self.best_ship) >= best_fitness_s(mid_self.best_ship),
                mid_self.best_ship == old(self).best_ship,
                forall|j: int|
                    0 <= j < b ==> ((#[trigger] self.ships@[j]).is_solution ==> best_fitness_s(
                        self.best_ship,
                    ) >= self.ships@[j].chromosome.fitness),
                (forall|j: int|
                    0 <= j < b ==> ((#[trigger] self.ships@[j]).is_solution ==> self.ships@[
                        j
                    ].chromosome.fitness <= best_fitness_s(mid_self.best_ship)))
                    ==> self.best_ship == mid_self.best_ship,
                (self.best_ship matches Some(bb) ==> (bb.chromosome.fitness > best_fitness_s(
                    mid_self.best_ship,
                ) ==> exists|j: int|
                    0 <= j < n && (#[trigger] self.ships@[j]).is_solution && self.ships@[
                        j
                    ].chromosome.fitness == bb.chromosome.fitness && self.ships@[
                        j
                    ].chromosome.genes@ == bb.chromosome.genes@)),
                self.best_ship is None ==> mid_self.best_ship is None,
                self.level_data == mid_self.level_data,
                self.map@ == mid_self.map@,
                self.landing_zone_index == mid_self.landing_zone_index,
                self.landing_zone_xmin == mid_self.landing_zone_xmin,
                self.landing_zone_xmax == mid_self.landing_zone_xmax,
                self.landing_zone_y == mid_self.landing_zone_y,
                self.surface_length == mid_self.surface_length,
                self.gravity == mid_self.gravity,
                self.mutation_rate_bp == mid_self.mutation_rate_bp,
                self.elite_percent == mid_self.elite_percent,
                self.generation == mid_self.generation,
                self.turn == mid_self.turn,
            decreases n - b,
        {
            let ghost prev_self = *self;
            let better: bool = match &self.best_ship {
                None => true,
                Some(bs) => self.ships[b].chromosome.fitness > bs.chromosome.fitness,
            };
            if self.ships[b].is_solution && better {
                proof {
                    assert(self.wf_ship_at(b as int));
                }
                let dup = self.ships[b].duplicate();
                self.best_ship = Some(dup);
                proof {
                    assert forall|j: int| 0 <= j < n implies self.wf_ship_at(j) by {
                        assert(prev_self.wf_ship_at(j));
                    }
                    assert(dup.wf());
                    assert(dup.solution_sound(self.landing_zone_index as int));
                    assert(dup.chromosome.fitness > best_fitness_s(prev_self.best_ship));
                    assert(dup.chromosome.fitness > best_fitness_s(mid_self.best_ship));
                    // the new record is witnessed verbatim by the candidate
                    assert(self.ships@[b as int].is_solution && self.ships@[
                        b as int
                    ].chromosome.fitness == dup.chromosome.fitness && self.ships@[
                        b as int
                    ].chromosome.genes@ == dup.chromosome.genes@);
                }
            }
            proof {
                if self.best_ship != mid_self.best_ship {
                    assert(best_fitness_s(self.best_ship) > best_fitness_s(mid_self.best_ship));
                }
                // if nothing up to and including this candidate beats the
                // old record, the record is untouched
                if forall|j: int|
                    0 <= j < b + 1 ==> ((#[trigger] self.ships@[j]).is_solution ==> self.ships@[
                        j
                    ].chromosome.fitness <= best_fitness_s(mid_self.best_ship)) {
                    assert(self.ships@[b as int].is_solution ==> self.ships@[
                        b as int
                    ].chromosome.fitness <= best_fitness_s(mid_self.best_ship));
                    assert(forall|j: int|
                        0 <= j < b ==> ((#[trigger] self.ships@[j]).is_solution ==> self.ships@[
                            j
                        ].chromosome.fitness <= best_fitness_s(mid_self.best_ship)));
                    assert(prev_self.best_ship == mid_self.best_ship);
                    assert(self.best_ship == mid_self.best_ship);
                }
            }
            b = b + 1;
        }
        (total / (POPULATION_COUNT as i64), max_f)
    }

    /// Summed fitness of the first `n` candidates as recorded.
    pub open spec fn fit_prefix_sum_s(self, n: int) -> int
        decreases n,
    {
        if n <= 0 {
            0
        } else {
            self.fit_prefix_sum_s(n - 1) + self.ships@[n - 1].chromosome.fitness
        }
    }

    /// The elite of the evaluated population: the candidates sorted by
    /// descending fitness, stably, and the top share copied out. The `j`-th
    /// elite is the candidate at the `j`-th position of the stable
    /// descending sort of the (fitness, index) pairs.
    pub fn get_elites(&self) -> (elites: Vec<Ship>)
        requires
            self.wf(),
        ensures
            ({
                let sorted = sort_desc_s(fit_pairs_s(self.ships@));
                let k = elite_count_s(POPULATION_COUNT as int, self.elite_percent as int);
                &&& elites@.len() == k
                &&& 1 <= k <= POPULATION_COUNT
                &&& sorted_desc(sorted)
                &&& forall|j: int|
                    0 <= j < k ==> {
                        let idx = (#[trigger] sorted[j]).1 as int;
                        &&& 0 <= idx < self.ships@.len()
                        &&& same_but_fitness(elites@[j], self.ships@[idx])
                        &&& elites@[j].chromosome.fitness == self.ships@[idx].chromosome.fitness
                    }
            }),
    {
        let n: usize = self.ships.len();
        let mut pairs: Vec<(i64, usize)> = Vec::new();
        let mut i: usize = 0;
        while i < n
            invariant
                n == self.ships@.len(),
                0 <= i <= n,
                pairs@.len() == i,
                forall|j: int|
                    0 <= j < i ==> #[trigger] pairs@[j] == (
                        self.ships@[j].chromosome.fitness,
                        j as usize,
                    ),
            decreases n - i,
        {
            pairs.push((self.ships[i].chromosome.fitness, i));
            i = i + 1;
        }
        proof {
            assert(pairs@ =~= fit_pairs_s(self.ships@));
        }
        let sorted: Vec<(i64, usize)> = sort_pairs(&pairs);
        proof {
            lemma_sort_desc(pairs@);
        }
        let pct: usize = self.elite_percent as usize;
        let k: usize = (POPULATION_COUNT * pct + 99) / 100;
        proof {
            assert(POPULATION_COUNT * pct + 99 < (POPULATION_COUNT + 1) * 100) by (nonlinear_arith)
                requires
                    pct <= 100,
            ;
            crate::nums::lemma_div_bound(
                POPULATION_COUNT * pct + 99,
                100,
                POPULATION_COUNT as int + 1,
            );
            assert(100 <= POPULATION_COUNT * pct + 99) by (nonlinear_arith)
                requires
                    1 <= pct,
            ;
            crate::nums::lemma_div_at_least(POPULATION_COUNT * pct + 99, 100, 1);
        }
        let mut elites: Vec<Ship> = Vec::new();
        let mut e: usize = 0;
        while e < k
            invariant
                self.wf(),
                n == self.ships@.len(),
                n == POPULATION_COUNT,
                sorted@ == sort_desc_s(fit_pairs_s(self.ships@)),
                sorted@.len() == n,
                1 <= k <= n,
                0 <= e <= k,
                elites@.len() == e,
                forall|j: int|
                    0 <= j < e ==> {
                        let idx = (#[trigger] sorted@[j]).1 as int;
                        &&& 0 <= idx < self.ships@.len()
                        &&& same_but_fitness(elites@[j], self.ships@[idx])
                        &&& elites@[j].chromosome.fitness == self.ships@[idx].chromosome.fitness
                    },
            decreases k - e,
        {
            proof {
                lemma_sort_desc(fit_pairs_s(self.ships@));
                assert(fit_pairs_s(self.ships@).contains(sorted@[e as int]));
                let w = choose|w: int|
                    0 <= w < fit_pairs_s(self.ships@).len() && fit_pairs_s(self.ships@)[w]
                        == sorted@[e as int];
                assert(fit_pairs_s(self.ships@)[w].1 == w as usize);
                assert(sorted@[e as int].1 < n);
            }
            let idx: usize = sorted[e].1;
            elites.push(self.ships[idx].duplicate());
            e = e + 1;
        }
        elites
    }

    /// Breed the next generation: fitness-proportionate selection over a
    /// cumulative-sum table, blend crossover, per-gene mutation - then the
    /// elite of the evaluated population is copied back in over the first
    /// slots, genome and fitness verbatim, flagged elite, its trajectory
    /// rebuilt fresh from the genome like every other candidate's. At an
    /// elite share of one hundred percent the new population is, genome for
    /// genome, exactly the sorted elite of the old one.
    ///
    /// The second parent of a pair is resampled until it differs from the
    /// first, but boundedly - sixteen draws, then the neighbouring index -
    /// so that termination is a theorem rather than an almost-sure event.
    pub fn generate(&mut self, rng: &mut rand::rngs::StdRng)
        requires
            old(self).wf(),
            forall|i: int|
                0 <= i < old(self).ships@.len() ==> (#[trigger] old(self).ships@[
                    i
                ]).chromosome.fitness >= 1,
            old(self).generation < 1_000_000_000_000_000,
        ensures
            final(self).wf(),
            final(self).generation == old(self).generation + 1,
            final(self).ships@.len() == POPULATION_COUNT,
            ({
                let sorted = sort_desc_s(fit_pairs_s(old(self).ships@));
                let k = elite_count_s(POPULATION_COUNT as int, old(self).elite_percent as int);
                &&& forall|j: int|
                    0 <= j < k ==> {
                        let idx = (#[trigger] sorted[j]).1 as int;
                        &&& 0 <= idx < old(self).ships@.len()
                        &&& final(self).ships@[j].chromosome.genes@ == old(self).ships@[
                            idx
                        ].chromosome.genes@
                        &&& final(self).ships@[j].chromosome.fitness == old(self).ships@[
                            idx
                        ].chromosome.fitness
                        &&& final(self).ships@[j].is_elite
                    }
                &&& (old(self).elite_percent == 100 ==> k == POPULATION_COUNT)
            }),
            forall|i: int|
                0 <= i < final(self).ships@.len() ==> {
                    let sh = #[trigger] final(self).ships@[i];
                    &&& !sh.is_dead && !sh.is_solution && !sh.is_out
                    &&& sh.path@.len() == 0
                    &&& sh.pos == old(self).level_data.pos
                    &&& sh.fuel == old(self).level_data.fuel
                },
            // the slots behind the elite hold freshly bred candidates: not
            // yet evaluated and not flagged
            ({
                let k = elite_count_s(POPULATION_COUNT as int, old(self).elite_percent as int);
                forall|i: int|
                    k <= i < final(self).ships@.len() ==> {
                        let sh = #[trigger] final(self).ships@[i];
                        &&& sh.chromosome.fitness == 0
                        &&& !sh.is_elite
                    }
            }),
            final(self).level_data == old(self).level_data,
            final(self).map@ == old(self).map@,
            final(self).landing_zone_index == old(self).landing_zone_index,
            final(self).landing_zone_xmin == old(self).landing_zone_xmin,
            final(self).landing_zone_xmax == old(self).landing_zone_xmax,
            final(self).landing_zone_y == old(self).landing_zone_y,
            final(self).surface_length == old(self).surface_length,
            final(self).gravity == old(self).gravity,
            final(self).mutation_rate_bp == old(self).mutation_rate_bp,
            final(self).elite_percent == old(self).elite_percent,
            final(self).best_ship == old(self).best_ship,
    {
        let n: usize = self.ships.len();
        let elites: Vec<Ship> = self.get_elites();
        let ghost sorted = sort_desc_s(fit_pairs_s(self.ships@));

        // cumulative fitness for roulette-wheel selection
        let mut cum: Vec<i64> = Vec::new();
        let mut c: i64 = 0;
        let mut i: usize = 0;
        while i < n
            invariant
                self.wf(),
                n == self.ships@.len(),
                n == POPULATION_COUNT,
                forall|j: int|
                    0 <= j < n ==> (#[trigger] self.ships@[j]).chromosome.fitness >= 1,
                0 <= i <= n,
                cum@.len() == i,
                c == self.fit_prefix_sum_s(i as int),
                i <= c <= i * 300_000,
                forall|j: int| 0 <= j < i ==> #[trigger] cum@[j] == self.fit_prefix_sum_s(j + 1),
                forall|j: int| 0 <= j < i ==> #[trigger] cum@[j] >= j + 1,
                i > 0 ==> cum@[i - 1] == c,
            decreases n - i,
        {
            proof {
                assert(self.wf_ship_at(i as int));
            }
            c = c + self.ships[i].chromosome.fitness;
            cum.push(c);
            i = i + 1;
        }
        let total: i64 = c;

        // breed the full next population, two children per parent pair
        let mut new_ships: Vec<Ship> = Vec::new();
        while new_ships.len() < POPULATION_COUNT
            invariant
                self.wf(),
                n == self.ships@.len(),
                n == POPULATION_COUNT,
                cum@.len() == n,
                total == cum@[n - 1],
                total >= n,
                new_ships@.len() % 2 == 0,
                new_ships@.len() <= POPULATION_COUNT,
                forall|j: int|
                    0 <= j < new_ships@.len() ==> {
                        let sh = #[trigger] new_ships@[j];
                        &&& sh.wf()
                        &&& !sh.is_dead && !sh.is_solution && !sh.is_out && !sh.is_elite
                        &&& sh.path@.len() == 0
                        &&& sh.pos == self.level_data.pos
                        &&& sh.fuel == self.level_data.fuel
                        &&& sh.chromosome.fitness == 0
                        &&& sh.crash_zone_index == 0
                    },
            decreases POPULATION_COUNT - new_ships@.len(),
        {
            let ta: i64 = rand_range_i64(rng, 0, total);
            let ia: usize = select_index(&cum, ta);
            let mut ib: usize = ia;
            let mut tries: usize = 0;
            while ib == ia && tries < 16
                invariant
                    cum@.len() == n,
                    total == cum@[n - 1],
                    total >= n,
                    n == POPULATION_COUNT,
                    ib < n,
                decreases 16 - tries,
            {
                let tb: i64 = rand_range_i64(rng, 0, total);
                ib = select_index(&cum, tb);
                tries = tries + 1;
            }
            if ib == ia {
                ib = (ia + 1) % n;
            }
            proof {
                assert(self.wf_ship_at(ia as int));
                assert(self.wf_ship_at(ib as int));
            }
            let children = crossover(&self.ships[ia].chromosome, &self.ships[ib].chromosome, rng);
            let (mut c0, mut c1) = children;
            mutate(&mut c0, self.mutation_rate_bp, rng);
            mutate(&mut c1, self.mutation_rate_bp, rng);
            new_ships.push(Ship::from_genome(&self.level_data, c0));
            new_ships.push(Ship::from_genome(&self.level_data, c1));
        }
        let ghost pre_self = *self;
        self.ships = new_ships;
        proof {
            assert forall|j: int| 0 <= j < n implies self.wf_ship_at(j) by {}
        }

        // splice the elite back in over the first slots
        let kk: usize = elites.len();
        let mut e: usize = 0;
        while e < kk
            invariant
                self.wf(),
                n == self.ships@.len(),
                n == POPULATION_COUNT,
                kk == elites@.len(),
                kk <= n,
                0 <= e <= kk,
                pre_self.wf(),
                sorted == sort_desc_s(fit_pairs_s(pre_self.ships@)),
                pre_self.ships@ == old(self).ships@,
                pre_self.level_data == self.level_data,
                forall|j: int|
                    0 <= j < kk ==> {
                        let idx = (#[trigger] sorted[j]).1 as int;
                        &&& 0 <= idx < pre_self.ships@.len()
                        &&& same_but_fitness(elites@[j], pre_self.ships@[idx])
                        &&& elites@[j].chromosome.fitness == pre_self.ships@[
                            idx
                        ].chromosome.fitness
                    },
                forall|j: int|
                    0 <= j < e ==> {
                        let idx = (#[trigger] sorted[j]).1 as int;
                        &&& self.ships@[j].chromosome.genes@ == pre_self.ships@[
                            idx
                        ].chromosome.genes@
                        &&& self.ships@[j].chromosome.fitness == pre_self.ships@[
                            idx
                        ].chromosome.fitness
                        &&& self.ships@[j].is_elite
                    },
                forall|j: int|
                    0 <= j < n ==> {
                        let sh = #[trigger] self.ships@[j];
                        &&& !sh.is_dead && !sh.is_solution && !sh.is_out
                        &&& sh.path@.len() == 0
                        &&& sh.pos == self.level_data.pos
                        &&& sh.fuel == self.level_data.fuel
                    },
                forall|j: int|
                    e <= j < n ==> {
                        let sh = #[trigger] self.ships@[j];
                        &&& sh.chromosome.fitness == 0
                        &&& !sh.is_elite
                    },
                self.gravity == pre_self.gravity,
                self.map@ == pre_self.map@,
                self.landing_zone_index == pre_self.landing_zone_index,
                self.landing_zone_xmin == pre_self.landing_zone_xmin,
                self.landing_zone_xmax == pre_self.landing_zone_xmax,
                self.landing_zone_y == pre_self.landing_zone_y,
                self.surface_length == pre_self.surface_length,
                self.mutation_rate_bp == pre_self.mutation_rate_bp,
                self.elite_percent == pre_self.elite_percent,
                self.generation == pre_self.generation,
                self.turn == pre_self.turn,
                self.best_ship == pre_self.best_ship,
            decreases kk - e,
        {
            proof {
                let idx = sorted[e as int].1 as int;
                assert(same_but_fitness(elites@[e as int], pre_self.ships@[idx]));
                assert(pre_self.wf_ship_at(idx));
            }
            let chrom: Chromosome = elites[e].chromosome.duplicate();
            let mut elite_ship: Ship = Ship::from_genome(&self.level_data, chrom);
            elite_ship.is_elite = true;
            let ghost before = *self;
            self.ships[e] = elite_ship;
            proof {
                assert forall|j: int| 0 <= j < n implies self.wf_ship_at(j) by {
                    if j != e {
                        assert(self.ships@[j] == before.ships@[j]);
                        assert(before.wf_ship_at(j));
                    }
                }
            }
            e = e + 1;
        }
        let ghost before_gen = *self;
        self.generation = self.generation + 1;
        proof {
            assert forall|j: int| 0 <= j < n implies self.wf_ship_at(j) by {
                assert(before_gen.wf_ship_at(j));
            }
            if self.elite_percent == 100 {
                lemma_elite_count_full(POPULATION_COUNT as int);
            }
        }
    }
}

/// Equal per-candidate fitness gives equal sums and maxima.
proof fn lemma_gen_stats(g0: Game, mid: Game, n: int)
    requires
        0 <= n,
        forall|i: int| 0 <= i < n ==> #[trigger] mid.eval_fit_s(i) == g0.gen_fit_s(i),
    ensures
        mid.sum_fit_s(n) == g0.gen_sum_fit_s(n),
        mid.max_fit_s(n) == g0.gen_max_fit_s(n),
    decreases n,
{
    if n > 0 {
        lemma_gen_stats(g0, mid, n - 1);
    }
}

/// One full generation of the search: simulate every candidate to its
/// terminal state, score the outcome and refresh the best-solution record,
/// then breed the next population with elitism. The generation counter
/// advances by one; the new population starts fresh, ready to simulate.
pub fn run_genetic(game: &mut Game, rng: &mut rand::rngs::StdRng) -> (stats: (i64, i64))
    requires
        old(game).wf(),
        forall|i: int|
            0 <= i < old(game).ships@.len() ==> !(#[trigger] old(game).ships@[i]).is_dead ==> old(
                game,
            ).ships@[i].path@.len() == 0,
        old(game).generation < 1_000_000_000_000_000,
    ensures
        final(game).wf(),
        final(game).generation == old(game).generation + 1,
        final(game).ships@.len() == POPULATION_COUNT,
        forall|i: int|
            0 <= i < final(game).ships@.len() ==> !(#[trigger] final(game).ships@[i]).is_dead
                && final(game).ships@[i].path@.len() == 0,
        best_fitness_s(final(game).best_ship) >= best_fitness_s(old(game).best_ship),
        final(game).best_ship matches Some(b) ==> b.is_solution && b.solution_sound(
            final(game).landing_zone_index as int,
        ),
        // the reported statistics are a function of the genomes and the
        // level: a run is reproducible from the random draws alone
        stats.0 == old(game).gen_sum_fit_s(POPULATION_COUNT as int) / (POPULATION_COUNT as int),
        stats.1 == old(game).gen_max_fit_s(POPULATION_COUNT as int),
        // elitism, at the top level: the first slots of the new population
        // hold, genome and fitness verbatim and flagged elite, the top
        // share of this generation's candidates by their (genome-determined)
        // fitness; at an elite share of one hundred percent that is the
        // whole population
        ({
            let sorted = sort_desc_s(
                Seq::new(
                    POPULATION_COUNT as nat,
                    |i: int| ((old(game).gen_fit_s(i)) as i64, i as usize),
                ),
            );
            let k = elite_count_s(POPULATION_COUNT as int, old(game).elite_percent as int);
            &&& forall|j: int|
                0 <= j < k ==> {
                    let idx = (#[trigger] sorted[j]).1 as int;
                    &&& 0 <= idx < POPULATION_COUNT
                    &&& final(game).ships@[j].chromosome.genes@ == old(game).ships@[
                        idx
                    ].chromosome.genes@
                    &&& final(game).ships@[j].chromosome.fitness == old(game).gen_fit_s(idx)
                    &&& final(game).ships@[j].is_elite
                }
            &&& (old(game).elite_percent == 100 ==> k == POPULATION_COUNT)
        }),
        final(game).level_data == old(game).level_data,
        final(game).map@ == old(game).map@,
        final(game).landing_zone_index == old(game).landing_zone_index,
        final(game).surface_length == old(game).surface_length,
        final(game).gravity == old(game).gravity,
        final(game).mutation_rate_bp == old(game).mutation_rate_bp,
        final(game).elite_percent == old(game).elite_percent,
{
    game.run_simulation();
    let ghost mid = *game;
    let stats: (i64, i64) = game.evaluate();
    let ghost mid2 = *game;
    proof {
        assert forall|i: int| 0 <= i < POPULATION_COUNT implies #[trigger] mid.eval_fit_s(i)
            == old(game).gen_fit_s(i) by {
            lemma_fitness_state(
                mid.ships@[i],
                mid.map@,
                mid.landing_zone_index as int,
                mid.surface_length as int,
                mid.level_data.fuel as int,
            );
        }
        lemma_gen_stats(*old(game), mid, POPULATION_COUNT as int);
        // the pairs the elite sort works on are the genome-determined ones
        assert forall|i: int| 0 <= i < POPULATION_COUNT implies fit_pairs_s(mid2.ships@)[i] == ((
        old(game).gen_fit_s(i)) as i64, i as usize) by {
            assert(mid2.ships@[i].chromosome.fitness == mid.eval_fit_s(i));
        }
        assert(fit_pairs_s(mid2.ships@) =~= Seq::new(
            POPULATION_COUNT as nat,
            |i: int| ((old(game).gen_fit_s(i)) as i64, i as usize),
        ));
    }
    game.generate(rng);
    stats
}

} // verus!
